//! The deterministic code emitter: renders a description into four ordered
//! text blocks — the fixed accessor-type preamble, memory-region constants,
//! per-peripheral register/field/interrupt declarations, and a
//! marked-disabled self-check routine exercising every declared symbol.
//! Every routine's output is pinned to a specification function of the
//! description alone, so emission is a pure function of its input.

use vstd::prelude::*;

use crate::model::{views, Description, DescriptionV, Field, FieldV, Interrupt, InterruptV,
    MemoryRegion, MemoryRegionV, Peripheral, PeripheralV, Register, RegisterV};
use crate::text::{dec_string, hex8_string, spec_dec, spec_hex8, spec_lower, spec_upper, to_lower,
    to_upper};

verus! {

/// The fixed preamble: the register-address wrapper, the bit-field
/// descriptor with its width-to-bitmask lookup, and the generic
/// register-accessor object. Identical for every run.
pub const HEADER_TEXT: &'static str = r####"
use core::convert::TryInto;
pub struct Register {
    /// Offset of this register within this CSR
    offset: usize,
}
impl Register {
    pub const fn new(offset: usize) -> Register {
        Register { offset }
    }
}
pub struct Field {
    /// A bitmask we use to AND to the value, unshifted.
    /// E.g. for a width of `3` bits, this mask would be 0b111.
    mask: usize,
    /// Offset of the first bit in this field
    offset: usize,
    /// A copy of the register address that this field
    /// is a member of. Ideally this is optimized out by the
    /// compiler.
    register: Register,
}
impl Field {
    /// Define a new CSR field with the given width at a specified
    /// offset from the start of the register.
    pub const fn new(width: usize, offset: usize, register: Register) -> Field {
        // Asserts don't work in const fn yet.
        // assert!(width != 0, "field width cannot be 0");
        // assert!((width + offset) < 32, "field with and offset must fit within a 32-bit value");
        // It would be lovely if we could call `usize::pow()` in a const fn.
        let mask = match width {
            0 => 0,
            1 => 1,
            2 => 3,
            3 => 7,
            4 => 15,
            5 => 31,
            6 => 63,
            7 => 127,
            8 => 255,
            9 => 511,
            10 => 1023,
            11 => 2047,
            12 => 4095,
            13 => 8191,
            14 => 16383,
            15 => 32767,
            16 => 65535,
            17 => 131071,
            18 => 262143,
            19 => 524287,
            20 => 1048575,
            21 => 2097151,
            22 => 4194303,
            23 => 8388607,
            24 => 16777215,
            25 => 33554431,
            26 => 67108863,
            27 => 134217727,
            28 => 268435455,
            29 => 536870911,
            30 => 1073741823,
            31 => 2147483647,
            _ => 0,
        };
        Field {
            mask,
            offset,
            register,
        }
    }
}
pub struct CSR<T> {
    base: *mut T,
}
impl<T> CSR<T>
where
    T: core::convert::TryFrom<usize> + core::convert::TryInto<usize> + core::default::Default,
{
    pub fn new(base: *mut T) -> Self {
        CSR { base }
    }
    /// Read the contents of this register
    pub fn r(&mut self, reg: Register) -> T {
        let usize_base: *mut usize = unsafe { core::mem::transmute(self.base) };
        unsafe { usize_base.add(reg.offset).read_volatile() }
            .try_into()
            .unwrap_or_default()
    }
    /// Read a field from this CSR
    pub fn rf(&mut self, field: Field) -> T {
        let usize_base: *mut usize = unsafe { core::mem::transmute(self.base) };
        ((unsafe { usize_base.add(field.register.offset).read_volatile() } >> field.offset)
            & field.mask)
            .try_into()
            .unwrap_or_default()
    }
    /// Read-modify-write a given field in this CSR
    pub fn rmwf(&mut self, field: Field, value: T) {
        let usize_base: *mut usize = unsafe { core::mem::transmute(self.base) };
        let value_as_usize: usize = value.try_into().unwrap_or_default() << field.offset;
        let previous =
            unsafe { usize_base.add(field.register.offset).read_volatile() } & !field.mask;
        unsafe {
            usize_base
                .add(field.register.offset)
                .write_volatile(previous | value_as_usize)
        };
    }
    /// Write a given field without reading it first
    pub fn wfo(&mut self, field: Field, value: T) {
        let usize_base: *mut usize = unsafe { core::mem::transmute(self.base) };
        let value_as_usize: usize = (value.try_into().unwrap_or_default() & field.mask) << field.offset;
        unsafe {
            usize_base
                .add(field.register.offset)
                .write_volatile(value_as_usize)
        };
    }
    /// Write the entire contents of a register without reading it first
    pub fn wo(&mut self, reg: Register, value: T) {
        let usize_base: *mut usize = unsafe { core::mem::transmute(self.base) };
        let value_as_usize: usize = value.try_into().unwrap_or_default();
        unsafe { usize_base.add(reg.offset).write_volatile(value_as_usize) };
    }
    /// Zero a field from a provided value
    pub fn zf(&mut self, field: Field, value: T) -> T {
        let value_as_usize: usize = value.try_into().unwrap_or_default();
        (value_as_usize & !(field.mask << field.offset))
            .try_into()
            .unwrap_or_default()
    }
    /// Shift & mask a value to its final field position
    pub fn ms(&mut self, field: Field, value: T) -> T {
        let value_as_usize: usize = value.try_into().unwrap_or_default();
        ((value_as_usize & field.mask) << field.offset)
            .try_into()
            .unwrap_or_default()
    }
}
"####;

/// The fixed opening of the self-check block.
pub const TEST_HEADER_TEXT: &'static str = r####"
#[cfg(test)]
mod tests {
    #[test]
    #[ignore]
    fn compile_check() {
        use super::*;
"####;

/// The preamble block's text.
pub open spec fn spec_header() -> Seq<char> {
    HEADER_TEXT@
}

/// The emitted width of a field: `msb + 1 - lsb` with the wrap-around of
/// unsigned machine arithmetic (the parser does not validate `msb >= lsb`).
pub open spec fn spec_field_width(lsb: usize, msb: usize) -> usize {
    if msb + 1 - lsb > usize::MAX {
        0
    } else if msb + 1 - lsb >= 0 {
        (msb + 1 - lsb) as usize
    } else {
        (msb + 1 - lsb + usize::MAX + 1) as usize
    }
}

/// The two constant lines of one memory region.
pub open spec fn spec_mem_line(m: MemoryRegionV) -> Seq<char> {
    "pub const HW_"@ + spec_upper(m.name) + "_MEM:     usize = 0x"@ + spec_hex8(m.base as int)
        + ";\n"@ + "pub const HW_"@ + spec_upper(m.name) + "_MEM_LEN: usize = "@ + spec_dec(
        m.size as int,
    ) + ";\n"@
}

/// The constant lines of a run of memory regions, in order.
pub open spec fn spec_mem_lines(ms: Seq<MemoryRegionV>) -> Seq<char>
    decreases ms.len(),
{
    if ms.len() == 0 {
        Seq::empty()
    } else {
        spec_mem_lines(ms.drop_last()) + spec_mem_line(ms.last())
    }
}

/// The whole memory-region block.
pub open spec fn spec_memory_regions_out(ms: Seq<MemoryRegionV>) -> Seq<char> {
    "// Physical base addresses of memory regions\n"@ + spec_mem_lines(ms) + "\n"@
}

/// The base-address constant line of one peripheral.
pub open spec fn spec_base_line(p: PeripheralV) -> Seq<char> {
    "pub const HW_"@ + spec_upper(p.name) + "_BASE :   usize = "@ + spec_dec(p.base as int)
        + ";\n"@
}

/// The base-address lines of a run of peripherals, in order.
pub open spec fn spec_base_lines(ps: Seq<PeripheralV>) -> Seq<char>
    decreases ps.len(),
{
    if ps.len() == 0 {
        Seq::empty()
    } else {
        spec_base_lines(ps.drop_last()) + spec_base_line(ps.last())
    }
}

/// The constant line of one field, under its register's upper-cased name.
pub open spec fn spec_field_line(rn: Seq<char>, f: FieldV) -> Seq<char> {
    "        pub const "@ + rn + "_"@ + spec_upper(f.name) + ": crate::Field = crate::Field::new("@
        + spec_dec(spec_field_width(f.lsb, f.msb) as int) + ", "@ + spec_dec(f.lsb as int) + ", "@
        + rn + ");\n"@
}

/// The field lines of a run of fields, in order.
pub open spec fn spec_field_lines(rn: Seq<char>, fs: Seq<FieldV>) -> Seq<char>
    decreases fs.len(),
{
    if fs.len() == 0 {
        Seq::empty()
    } else {
        spec_field_lines(rn, fs.drop_last()) + spec_field_line(rn, fs.last())
    }
}

/// The block of one register: a blank line, its description comment where
/// one exists, the register constant, then its field constants.
pub open spec fn spec_reg_block(r: RegisterV) -> Seq<char> {
    "\n"@ + (match r.description {
        Some(d) => "        /// "@ + d + "\n"@,
        None => Seq::empty(),
    }) + "        pub const "@ + spec_upper(r.name) + ": crate::Register = crate::Register::new("@
        + spec_dec(r.offset as int) + ");\n"@ + spec_field_lines(spec_upper(r.name), r.fields)
}

/// The register blocks of a run of registers, in order.
pub open spec fn spec_reg_blocks(rs: Seq<RegisterV>) -> Seq<char>
    decreases rs.len(),
{
    if rs.len() == 0 {
        Seq::empty()
    } else {
        spec_reg_blocks(rs.drop_last()) + spec_reg_block(rs.last())
    }
}

/// The constant line of one interrupt.
pub open spec fn spec_irq_line(iv: InterruptV) -> Seq<char> {
    "        pub const "@ + spec_upper(iv.name) + "_IRQ: usize = "@ + spec_dec(iv.value as int)
        + ";\n"@
}

/// The interrupt lines of a run of interrupts, in order.
pub open spec fn spec_irq_lines(ivs: Seq<InterruptV>) -> Seq<char>
    decreases ivs.len(),
{
    if ivs.len() == 0 {
        Seq::empty()
    } else {
        spec_irq_lines(ivs.drop_last()) + spec_irq_line(ivs.last())
    }
}

/// The namespace block of one peripheral: its registers, then its
/// interrupts.
pub open spec fn spec_periph_mod(p: PeripheralV) -> Seq<char> {
    "\n"@ + "    pub mod "@ + spec_lower(p.name) + " {\n"@ + spec_reg_blocks(p.registers) + "\n"@
        + spec_irq_lines(p.interrupt) + "    }\n"@
}

/// The namespace blocks of a run of peripherals, in order.
pub open spec fn spec_periph_mods(ps: Seq<PeripheralV>) -> Seq<char>
    decreases ps.len(),
{
    if ps.len() == 0 {
        Seq::empty()
    } else {
        spec_periph_mods(ps.drop_last()) + spec_periph_mod(ps.last())
    }
}

/// The whole peripheral block: the base-address constants, then one nested
/// namespace per peripheral.
pub open spec fn spec_peripherals_out(ps: Seq<PeripheralV>) -> Seq<char> {
    "// Physical base addresses of registers\n"@ + spec_base_lines(ps) + "\n"@ + "pub mod utra {\n"@
        + spec_periph_mods(ps) + "}\n"@
}

/// The field-read line of one field's self-check.
pub open spec fn spec_tf_rf(per: Seq<char>, m: Seq<char>, fname: Seq<char>) -> Seq<char> {
    "        let bar = "@ + per + ".rf(utra::"@ + m + "::"@ + fname + ");\n"@
}

/// The read-modify-write line of one field's self-check.
pub open spec fn spec_tf_rmwf(per: Seq<char>, m: Seq<char>, fname: Seq<char>) -> Seq<char> {
    "        "@ + per + ".rmwf(utra::"@ + m + "::"@ + fname + ", bar);\n"@
}

/// The field-zeroing line of one field's self-check.
pub open spec fn spec_tf_zf(per: Seq<char>, m: Seq<char>, fname: Seq<char>) -> Seq<char> {
    "        let mut baz = "@ + per + ".zf(utra::"@ + m + "::"@ + fname + ", bar);\n"@
}

/// The shift-and-mask line of one field's self-check.
pub open spec fn spec_tf_ms(per: Seq<char>, m: Seq<char>, fname: Seq<char>) -> Seq<char> {
    "        baz |= "@ + per + ".ms(utra::"@ + m + "::"@ + fname + ", 1);\n"@
}

/// The write-only-field line of one field's self-check.
pub open spec fn spec_tf_wfo(per: Seq<char>, m: Seq<char>, fname: Seq<char>) -> Seq<char> {
    "        "@ + per + ".wfo(utra::"@ + m + "::"@ + fname + ", baz);\n"@
}

/// The five self-check lines of one field.
pub open spec fn spec_test_field_block(per: Seq<char>, m: Seq<char>, fname: Seq<char>) -> Seq<
    char,
> {
    spec_tf_rf(per, m, fname) + spec_tf_rmwf(per, m, fname) + spec_tf_zf(per, m, fname)
        + spec_tf_ms(per, m, fname) + spec_tf_wfo(per, m, fname)
}

/// The self-check lines of a run of fields, in order.
pub open spec fn spec_test_field_blocks(
    per: Seq<char>,
    m: Seq<char>,
    rn: Seq<char>,
    fs: Seq<FieldV>,
) -> Seq<char>
    decreases fs.len(),
{
    if fs.len() == 0 {
        Seq::empty()
    } else {
        spec_test_field_blocks(per, m, rn, fs.drop_last()) + spec_test_field_block(
            per,
            m,
            rn + "_"@ + spec_upper(fs.last().name),
        )
    }
}

/// The whole-register read line of one register's self-check.
pub open spec fn spec_tr_r(per: Seq<char>, m: Seq<char>, rn: Seq<char>) -> Seq<char> {
    "\n"@ + "        let foo = "@ + per + ".r(utra::"@ + m + "::"@ + rn + ");\n"@
}

/// The whole-register write-back line of one register's self-check.
pub open spec fn spec_tr_wo(per: Seq<char>, m: Seq<char>, rn: Seq<char>) -> Seq<char> {
    "        "@ + per + ".wo(utra::"@ + m + "::"@ + rn + ", foo);\n"@
}

/// The self-check block of one register: a whole-register read and
/// write-back, then every field exercised.
pub open spec fn spec_test_reg_block(per: Seq<char>, m: Seq<char>, r: RegisterV) -> Seq<char> {
    spec_tr_r(per, m, spec_upper(r.name)) + spec_tr_wo(per, m, spec_upper(r.name))
        + spec_test_field_blocks(per, m, spec_upper(r.name), r.fields)
}

/// The self-check blocks of a run of registers, in order.
pub open spec fn spec_test_reg_blocks(per: Seq<char>, m: Seq<char>, rs: Seq<RegisterV>) -> Seq<
    char,
>
    decreases rs.len(),
{
    if rs.len() == 0 {
        Seq::empty()
    } else {
        spec_test_reg_blocks(per, m, rs.drop_last()) + spec_test_reg_block(per, m, rs.last())
    }
}

/// The self-check block of one peripheral: one accessor instantiation over
/// its base, then every register exercised.
pub open spec fn spec_test_periph_block(p: PeripheralV) -> Seq<char> {
    "        let mut "@ + (spec_lower(p.name) + "_csr"@) + " = CSR::new(HW_"@ + spec_upper(p.name)
        + "_BASE as *mut u32);\n"@ + spec_test_reg_blocks(
        spec_lower(p.name) + "_csr"@,
        spec_lower(p.name),
        p.registers,
    )
}

/// The self-check blocks of a run of peripherals, in order.
pub open spec fn spec_test_periph_blocks(ps: Seq<PeripheralV>) -> Seq<char>
    decreases ps.len(),
{
    if ps.len() == 0 {
        Seq::empty()
    } else {
        spec_test_periph_blocks(ps.drop_last()) + spec_test_periph_block(ps.last())
    }
}

/// The whole self-check block.
pub open spec fn spec_tests_out(ps: Seq<PeripheralV>) -> Seq<char> {
    TEST_HEADER_TEXT@ + spec_test_periph_blocks(ps) + "    }\n"@ + "}\n"@
}

/// The whole emitted module: preamble, memory regions, peripherals,
/// self-check.
pub open spec fn spec_emit(d: DescriptionV) -> Seq<char> {
    spec_header() + spec_memory_regions_out(d.memory_regions) + spec_peripherals_out(d.peripherals)
        + spec_tests_out(d.peripherals)
}

/// The emitted width of a field, `msb + 1 - lsb` in wrap-around machine
/// arithmetic.
fn field_width(lsb: usize, msb: usize) -> (w: usize)
    ensures
        w == spec_field_width(lsb, msb),
{
    if lsb <= msb {
        if msb - lsb < usize::MAX {
            msb - lsb + 1
        } else {
            0
        }
    } else {
        let d = lsb - msb;
        if d == 1 {
            0
        } else {
            usize::MAX - d + 2
        }
    }
}

/// Emit the fixed preamble.
pub fn print_header(out: &mut String)
    ensures
        final(out)@ == old(out)@ + spec_header(),
{
    out.append(HEADER_TEXT);
}

/// Emit the memory-region constants: for each region in document order, a
/// base-address constant and a length constant.
pub fn print_memory_regions(regions: &Vec<MemoryRegion>, out: &mut String)
    ensures
        final(out)@ == old(out)@ + spec_memory_regions_out(views(regions@)),
{
    let ghost out0: Seq<char> = out@;
    out.append("// Physical base addresses of memory regions\n");
    let n = regions.len();
    let mut i: usize = 0;
    while i < n
        invariant
            n == regions@.len(),
            i <= n,
            out@ == out0 + "// Physical base addresses of memory regions\n"@ + spec_mem_lines(
                views(regions@).take(i as int),
            ),
        decreases n - i,
    {
        let region = &regions[i];
        let un = to_upper(region.name.as_str());
        out.append("pub const HW_");
        out.append(un.as_str());
        out.append("_MEM:     usize = 0x");
        let h = hex8_string(region.base);
        out.append(h.as_str());
        out.append(";\n");
        out.append("pub const HW_");
        out.append(un.as_str());
        out.append("_MEM_LEN: usize = ");
        let d = dec_string(region.size);
        out.append(d.as_str());
        out.append(";\n");
        proof {
            let ms = views(regions@);
            assert(ms[i as int] == regions@[i as int]@);
            assert(ms.take(i + 1).drop_last() =~= ms.take(i as int));
            assert(ms.take(i + 1).last() == ms[i as int]);
            assert(spec_mem_lines(ms.take(i + 1)) == spec_mem_lines(ms.take(i as int))
                + spec_mem_line(ms[i as int]));
            assert(out@ =~= out0 + "// Physical base addresses of memory regions\n"@
                + spec_mem_lines(ms.take(i + 1)));
        }
        i = i + 1;
    }
    out.append("\n");
    proof {
        assert(views(regions@).take(n as int) =~= views(regions@));
        assert(out@ =~= out0 + spec_memory_regions_out(views(regions@)));
    }
}

/// Emit the block of one register: blank line, optional description
/// comment, the register constant, and its field constants.
fn print_register_block(register: &Register, out: &mut String)
    ensures
        final(out)@ == old(out)@ + spec_reg_block(register@),
{
    let ghost out0: Seq<char> = out@;
    out.append("\n");
    match &register.description {
        Some(d) => {
            out.append("        /// ");
            out.append(d.as_str());
            out.append("\n");
        },
        None => {},
    }
    let rn = to_upper(register.name.as_str());
    out.append("        pub const ");
    out.append(rn.as_str());
    out.append(": crate::Register = crate::Register::new(");
    let o = dec_string(register.offset);
    out.append(o.as_str());
    out.append(");\n");
    let ghost pre: Seq<char> = out@;
    let n = register.fields.len();
    let mut i: usize = 0;
    while i < n
        invariant
            n == register.fields@.len(),
            i <= n,
            rn@ == spec_upper(register@.name),
            out@ == pre + spec_field_lines(rn@, views(register.fields@).take(i as int)),
        decreases n - i,
    {
        let field = &register.fields[i];
        out.append("        pub const ");
        out.append(rn.as_str());
        out.append("_");
        let fu = to_upper(field.name.as_str());
        out.append(fu.as_str());
        out.append(": crate::Field = crate::Field::new(");
        let w = dec_string(field_width(field.lsb, field.msb));
        out.append(w.as_str());
        out.append(", ");
        let l = dec_string(field.lsb);
        out.append(l.as_str());
        out.append(", ");
        out.append(rn.as_str());
        out.append(");\n");
        proof {
            let fs = views(register.fields@);
            assert(fs[i as int] == register.fields@[i as int]@);
            assert(fs.take(i + 1).drop_last() =~= fs.take(i as int));
            assert(fs.take(i + 1).last() == fs[i as int]);
            assert(spec_field_lines(rn@, fs.take(i + 1)) == spec_field_lines(
                rn@,
                fs.take(i as int),
            ) + spec_field_line(rn@, fs[i as int]));
            assert(out@ =~= pre + spec_field_lines(rn@, fs.take(i + 1)));
        }
        i = i + 1;
    }
    proof {
        assert(views(register.fields@).take(n as int) =~= views(register.fields@));
        assert(out@ =~= out0 + spec_reg_block(register@));
    }
}

/// Emit the namespace block of one peripheral: its registers, then its
/// interrupt constants.
fn print_peripheral_mod(peripheral: &Peripheral, out: &mut String)
    ensures
        final(out)@ == old(out)@ + spec_periph_mod(peripheral@),
{
    let ghost out0: Seq<char> = out@;
    out.append("\n");
    out.append("    pub mod ");
    let ln = to_lower(peripheral.name.as_str());
    out.append(ln.as_str());
    out.append(" {\n");
    let ghost pre: Seq<char> = out@;
    let n = peripheral.registers.len();
    let mut i: usize = 0;
    while i < n
        invariant
            n == peripheral.registers@.len(),
            i <= n,
            out@ == pre + spec_reg_blocks(views(peripheral.registers@).take(i as int)),
        decreases n - i,
    {
        print_register_block(&peripheral.registers[i], out);
        proof {
            let rs = views(peripheral.registers@);
            assert(rs[i as int] == peripheral.registers@[i as int]@);
            assert(rs.take(i + 1).drop_last() =~= rs.take(i as int));
            assert(rs.take(i + 1).last() == rs[i as int]);
            assert(out@ =~= pre + spec_reg_blocks(rs.take(i + 1)));
        }
        i = i + 1;
    }
    out.append("\n");
    let ghost pre2: Seq<char> = out@;
    let k = peripheral.interrupt.len();
    let mut j: usize = 0;
    while j < k
        invariant
            k == peripheral.interrupt@.len(),
            j <= k,
            out@ == pre2 + spec_irq_lines(views(peripheral.interrupt@).take(j as int)),
        decreases k - j,
    {
        let interrupt = &peripheral.interrupt[j];
        out.append("        pub const ");
        let iu = to_upper(interrupt.name.as_str());
        out.append(iu.as_str());
        out.append("_IRQ: usize = ");
        let v = dec_string(interrupt.value);
        out.append(v.as_str());
        out.append(";\n");
        proof {
            let ivs = views(peripheral.interrupt@);
            assert(ivs[j as int] == peripheral.interrupt@[j as int]@);
            assert(ivs.take(j + 1).drop_last() =~= ivs.take(j as int));
            assert(ivs.take(j + 1).last() == ivs[j as int]);
            assert(out@ =~= pre2 + spec_irq_lines(ivs.take(j + 1)));
        }
        j = j + 1;
    }
    out.append("    }\n");
    proof {
        assert(views(peripheral.registers@).take(n as int) =~= views(peripheral.registers@));
        assert(views(peripheral.interrupt@).take(k as int) =~= views(peripheral.interrupt@));
        assert(out@ =~= out0 + spec_periph_mod(peripheral@));
    }
}

/// Emit the peripheral declarations: one base-address constant per
/// peripheral, then one nested namespace per peripheral, in document order.
pub fn print_peripherals(peripherals: &Vec<Peripheral>, out: &mut String)
    ensures
        final(out)@ == old(out)@ + spec_peripherals_out(views(peripherals@)),
{
    let ghost out0: Seq<char> = out@;
    out.append("// Physical base addresses of registers\n");
    let n = peripherals.len();
    let mut i: usize = 0;
    while i < n
        invariant
            n == peripherals@.len(),
            i <= n,
            out@ == out0 + "// Physical base addresses of registers\n"@ + spec_base_lines(
                views(peripherals@).take(i as int),
            ),
        decreases n - i,
    {
        let peripheral = &peripherals[i];
        out.append("pub const HW_");
        let un = to_upper(peripheral.name.as_str());
        out.append(un.as_str());
        out.append("_BASE :   usize = ");
        let b = dec_string(peripheral.base);
        out.append(b.as_str());
        out.append(";\n");
        proof {
            let ps = views(peripherals@);
            assert(ps[i as int] == peripherals@[i as int]@);
            assert(ps.take(i + 1).drop_last() =~= ps.take(i as int));
            assert(ps.take(i + 1).last() == ps[i as int]);
            assert(out@ =~= out0 + "// Physical base addresses of registers\n"@ + spec_base_lines(
                ps.take(i + 1),
            ));
        }
        i = i + 1;
    }
    out.append("\n");
    out.append("pub mod utra {\n");
    let ghost pre: Seq<char> = out@;
    let mut j: usize = 0;
    while j < n
        invariant
            n == peripherals@.len(),
            j <= n,
            out@ == pre + spec_periph_mods(views(peripherals@).take(j as int)),
        decreases n - j,
    {
        print_peripheral_mod(&peripherals[j], out);
        proof {
            let ps = views(peripherals@);
            assert(ps[j as int] == peripherals@[j as int]@);
            assert(ps.take(j + 1).drop_last() =~= ps.take(j as int));
            assert(ps.take(j + 1).last() == ps[j as int]);
            assert(out@ =~= pre + spec_periph_mods(ps.take(j + 1)));
        }
        j = j + 1;
    }
    out.append("}\n");
    proof {
        assert(views(peripherals@).take(n as int) =~= views(peripherals@));
        assert(out@ =~= out0 + spec_peripherals_out(views(peripherals@)));
    }
}

/// Emit the self-check lines of one register under its peripheral's
/// accessor and namespace names.
#[verifier::rlimit(100)]
#[verifier::spinoff_prover]
fn print_test_register(per: &str, m: &str, register: &Register, out: &mut String)
    ensures
        final(out)@ == old(out)@ + spec_test_reg_block(per@, m@, register@),
{
    let ghost out0: Seq<char> = out@;
    let rn = to_upper(register.name.as_str());
    out.append("\n");
    out.append("        let foo = ");
    out.append(per);
    out.append(".r(utra::");
    out.append(m);
    out.append("::");
    out.append(rn.as_str());
    out.append(");\n");
    proof {
        assert(out@ =~= out0 + spec_tr_r(per@, m@, rn@));
    }
    let ghost g1: Seq<char> = out@;
    out.append("        ");
    out.append(per);
    out.append(".wo(utra::");
    out.append(m);
    out.append("::");
    out.append(rn.as_str());
    out.append(", foo);\n");
    proof {
        assert(out@ =~= g1 + spec_tr_wo(per@, m@, rn@));
    }
    let ghost pre: Seq<char> = out@;
    let n = register.fields.len();
    let mut i: usize = 0;
    while i < n
        invariant
            n == register.fields@.len(),
            i <= n,
            rn@ == spec_upper(register@.name),
            out@ == pre + spec_test_field_blocks(
                per@,
                m@,
                rn@,
                views(register.fields@).take(i as int),
            ),
        decreases n - i,
    {
        let field = &register.fields[i];
        let mut fname = rn.clone();
        fname.append("_");
        let fu = to_upper(field.name.as_str());
        fname.append(fu.as_str());
        let ghost s0: Seq<char> = out@;
        out.append("        let bar = ");
        out.append(per);
        out.append(".rf(utra::");
        out.append(m);
        out.append("::");
        out.append(fname.as_str());
        out.append(");\n");
        proof {
            assert(out@ =~= s0 + spec_tf_rf(per@, m@, fname@));
        }
        let ghost s1: Seq<char> = out@;
        out.append("        ");
        out.append(per);
        out.append(".rmwf(utra::");
        out.append(m);
        out.append("::");
        out.append(fname.as_str());
        out.append(", bar);\n");
        proof {
            assert(out@ =~= s1 + spec_tf_rmwf(per@, m@, fname@));
        }
        let ghost s2: Seq<char> = out@;
        out.append("        let mut baz = ");
        out.append(per);
        out.append(".zf(utra::");
        out.append(m);
        out.append("::");
        out.append(fname.as_str());
        out.append(", bar);\n");
        proof {
            assert(out@ =~= s2 + spec_tf_zf(per@, m@, fname@));
        }
        let ghost s3: Seq<char> = out@;
        out.append("        baz |= ");
        out.append(per);
        out.append(".ms(utra::");
        out.append(m);
        out.append("::");
        out.append(fname.as_str());
        out.append(", 1);\n");
        proof {
            assert(out@ =~= s3 + spec_tf_ms(per@, m@, fname@));
        }
        let ghost s4: Seq<char> = out@;
        out.append("        ");
        out.append(per);
        out.append(".wfo(utra::");
        out.append(m);
        out.append("::");
        out.append(fname.as_str());
        out.append(", baz);\n");
        proof {
            assert(out@ =~= s4 + spec_tf_wfo(per@, m@, fname@));
        }
        proof {
            let fs = views(register.fields@);
            assert(fs[i as int] == register.fields@[i as int]@);
            assert(fs.take(i + 1).drop_last() =~= fs.take(i as int));
            assert(fs.take(i + 1).last() == fs[i as int]);
            assert(fname@ == rn@ + "_"@ + spec_upper(fs[i as int].name));
            assert(out@ =~= s0 + spec_test_field_block(per@, m@, fname@));
            assert(spec_test_field_blocks(per@, m@, rn@, fs.take(i + 1))
                == spec_test_field_blocks(per@, m@, rn@, fs.take(i as int))
                + spec_test_field_block(per@, m@, rn@ + "_"@ + spec_upper(fs[i as int].name)));
            assert(out@ =~= pre + spec_test_field_blocks(per@, m@, rn@, fs.take(i + 1)));
        }
        i = i + 1;
    }
    proof {
        assert(views(register.fields@).take(n as int) =~= views(register.fields@));
        assert(out@ =~= out0 + spec_test_reg_block(per@, m@, register@));
    }
}

/// Emit the self-check block of one peripheral.
fn print_test_peripheral(peripheral: &Peripheral, out: &mut String)
    ensures
        final(out)@ == old(out)@ + spec_test_periph_block(peripheral@),
{
    let ghost out0: Seq<char> = out@;
    let ln = to_lower(peripheral.name.as_str());
    let mut per = ln.clone();
    per.append("_csr");
    out.append("        let mut ");
    out.append(per.as_str());
    out.append(" = CSR::new(HW_");
    let un = to_upper(peripheral.name.as_str());
    out.append(un.as_str());
    out.append("_BASE as *mut u32);\n");
    let ghost pre: Seq<char> = out@;
    let n = peripheral.registers.len();
    let mut i: usize = 0;
    while i < n
        invariant
            n == peripheral.registers@.len(),
            i <= n,
            per@ == spec_lower(peripheral@.name) + "_csr"@,
            ln@ == spec_lower(peripheral@.name),
            out@ == pre + spec_test_reg_blocks(
                per@,
                ln@,
                views(peripheral.registers@).take(i as int),
            ),
        decreases n - i,
    {
        print_test_register(per.as_str(), ln.as_str(), &peripheral.registers[i], out);
        proof {
            let rs = views(peripheral.registers@);
            assert(rs[i as int] == peripheral.registers@[i as int]@);
            assert(rs.take(i + 1).drop_last() =~= rs.take(i as int));
            assert(rs.take(i + 1).last() == rs[i as int]);
            assert(out@ =~= pre + spec_test_reg_blocks(per@, ln@, rs.take(i + 1)));
        }
        i = i + 1;
    }
    proof {
        assert(views(peripheral.registers@).take(n as int) =~= views(peripheral.registers@));
        assert(out@ =~= out0 + spec_test_periph_block(peripheral@));
    }
}

/// Emit the self-check block: for every peripheral one accessor
/// instantiation, and every register and field exercised through every
/// accessor operation.
pub fn print_tests(peripherals: &Vec<Peripheral>, out: &mut String)
    ensures
        final(out)@ == old(out)@ + spec_tests_out(views(peripherals@)),
{
    let ghost out0: Seq<char> = out@;
    out.append(TEST_HEADER_TEXT);
    let ghost pre: Seq<char> = out@;
    let n = peripherals.len();
    let mut i: usize = 0;
    while i < n
        invariant
            n == peripherals@.len(),
            i <= n,
            out@ == pre + spec_test_periph_blocks(views(peripherals@).take(i as int)),
        decreases n - i,
    {
        print_test_peripheral(&peripherals[i], out);
        proof {
            let ps = views(peripherals@);
            assert(ps[i as int] == peripherals@[i as int]@);
            assert(ps.take(i + 1).drop_last() =~= ps.take(i as int));
            assert(ps.take(i + 1).last() == ps[i as int]);
            assert(out@ =~= pre + spec_test_periph_blocks(ps.take(i + 1)));
        }
        i = i + 1;
    }
    out.append("    }\n");
    out.append("}\n");
    proof {
        assert(views(peripherals@).take(n as int) =~= views(peripherals@));
        assert(out@ =~= out0 + spec_tests_out(views(peripherals@)));
    }
}

/// Render a whole description into the generated module's text.
pub fn emit_description(description: &Description) -> (out: String)
    ensures
        out@ == spec_emit(description@),
{
    let mut out = String::new();
    print_header(&mut out);
    print_memory_regions(&description.memory_regions, &mut out);
    print_peripherals(&description.peripherals, &mut out);
    print_tests(&description.peripherals, &mut out);
    proof {
        assert(out@ =~= spec_emit(description@));
    }
    out
}

/// Emission is a pure function of the description alone: equal
/// descriptions render to identical text, so emitting twice from the same
/// description produces byte-identical output.
pub proof fn lemma_emit_deterministic(d1: DescriptionV, d2: DescriptionV)
    requires
        d1 == d2,
    ensures
        spec_emit(d1) == spec_emit(d2),
{
}

/// Peripherals appear in emitted output in document order: appending one
/// more peripheral appends its base-address line, its namespace block and
/// its self-check block after those of the peripherals already present,
/// which stay unchanged.
pub proof fn lemma_emit_order_peripherals(ps: Seq<PeripheralV>, p: PeripheralV)
    ensures
        spec_base_lines(ps.push(p)) == spec_base_lines(ps) + spec_base_line(p),
        spec_periph_mods(ps.push(p)) == spec_periph_mods(ps) + spec_periph_mod(p),
        spec_test_periph_blocks(ps.push(p)) == spec_test_periph_blocks(ps)
            + spec_test_periph_block(p),
{
    assert(ps.push(p).drop_last() =~= ps);
    assert(ps.push(p).last() == p);
}

/// Registers appear within their peripheral's output in document order:
/// appending one more register appends its block after those already
/// present, which stay unchanged.
pub proof fn lemma_emit_order_registers(rs: Seq<RegisterV>, r: RegisterV)
    ensures
        spec_reg_blocks(rs.push(r)) == spec_reg_blocks(rs) + spec_reg_block(r),
{
    assert(rs.push(r).drop_last() =~= rs);
    assert(rs.push(r).last() == r);
}

/// Fields appear within their register's output in document order:
/// appending one more field appends its line after those already present,
/// which stay unchanged.
pub proof fn lemma_emit_order_fields(rn: Seq<char>, fs: Seq<FieldV>, f: FieldV)
    ensures
        spec_field_lines(rn, fs.push(f)) == spec_field_lines(rn, fs) + spec_field_line(rn, f),
{
    assert(fs.push(f).drop_last() =~= fs);
    assert(fs.push(f).last() == f);
}


/// Round trip on a minimal description — one peripheral holding one
/// register with one field: the emitted peripheral section holds exactly
/// one base-address constant, whose namespace block holds exactly one
/// register constant carrying the register's offset, which in turn holds
/// exactly one field constant, built with width `msb + 1 - lsb` and offset
/// `lsb`. Stated for the field's own bit range (`msb >= lsb`) with `msb`
/// below the largest machine offset, where that width does not wrap.
pub proof fn lemma_minimal_round_trip(d: DescriptionV, p: PeripheralV, r: RegisterV, f: FieldV)
    requires
        d.peripherals == seq![p],
        p.registers == seq![r],
        p.interrupt == Seq::<InterruptV>::empty(),
        r.fields == seq![f],
        r.description is None,
        f.lsb <= f.msb,
        f.msb < usize::MAX,
    ensures
        spec_peripherals_out(d.peripherals) == "// Physical base addresses of registers\n"@
            + spec_base_line(p) + "\n"@ + "pub mod utra {\n"@ + spec_periph_mod(p) + "}\n"@,
        spec_periph_mod(p) == "\n"@ + "    pub mod "@ + spec_lower(p.name) + " {\n"@
            + spec_reg_block(r) + "\n"@ + "    }\n"@,
        spec_reg_block(r) == "\n"@ + "        pub const "@ + spec_upper(r.name)
            + ": crate::Register = crate::Register::new("@ + spec_dec(r.offset as int) + ");\n"@
            + spec_field_line(spec_upper(r.name), f),
        spec_field_line(spec_upper(r.name), f) == "        pub const "@ + spec_upper(r.name)
            + "_"@ + spec_upper(f.name) + ": crate::Field = crate::Field::new("@ + spec_dec(
            f.msb + 1 - f.lsb,
        ) + ", "@ + spec_dec(f.lsb as int) + ", "@ + spec_upper(r.name) + ");\n"@,
{
    assert(seq![p].drop_last() =~= Seq::<PeripheralV>::empty());
    assert(seq![p].last() == p);
    assert(seq![r].drop_last() =~= Seq::<RegisterV>::empty());
    assert(seq![r].last() == r);
    assert(seq![f].drop_last() =~= Seq::<FieldV>::empty());
    assert(seq![f].last() == f);
    assert(spec_base_lines(Seq::<PeripheralV>::empty()) =~= Seq::<char>::empty());
    assert(spec_periph_mods(Seq::<PeripheralV>::empty()) =~= Seq::<char>::empty());
    assert(spec_reg_blocks(Seq::<RegisterV>::empty()) =~= Seq::<char>::empty());
    assert(spec_field_lines(spec_upper(r.name), Seq::<FieldV>::empty()) =~= Seq::<char>::empty());
    assert(spec_base_lines(seq![p]) =~= spec_base_line(p));
    assert(spec_periph_mods(seq![p]) =~= spec_periph_mod(p));
    assert(spec_reg_blocks(seq![r]) =~= spec_reg_block(r));
    assert(spec_field_lines(spec_upper(r.name), seq![f]) =~= spec_field_line(
        spec_upper(r.name),
        f,
    ));
    assert(spec_irq_lines(p.interrupt) =~= Seq::<char>::empty());
    assert(spec_periph_mod(p) =~= "\n"@ + "    pub mod "@ + spec_lower(p.name) + " {\n"@
        + spec_reg_block(r) + "\n"@ + "    }\n"@);
    assert(spec_reg_block(r) =~= "\n"@ + "        pub const "@ + spec_upper(r.name)
        + ": crate::Register = crate::Register::new("@ + spec_dec(r.offset as int) + ");\n"@
        + spec_field_line(spec_upper(r.name), f));
    assert(spec_field_width(f.lsb, f.msb) as int == f.msb + 1 - f.lsb);
}

} // verus!
