//! End-to-end conversions: parsing SVD documents and emitting the generated
//! module, including the ordering, round-trip and missing-value behaviours.

use svd2utra::{emit_description, generate, parse_svd, ParseError};

const MINIMAL: &str = "<device><peripherals>\n  <peripheral>\n    <name>uart</name>\n    <baseAddress>0xF0002000</baseAddress>\n    <size>0x1000</size>\n    <registers>\n      <register>\n        <name>CTRL</name>\n        <addressOffset>4</addressOffset>\n        <fields>\n          <field>\n            <name>EN</name>\n            <lsb>2</lsb>\n            <msb>2</msb>\n          </field>\n        </fields>\n      </register>\n    </registers>\n  </peripheral>\n</peripherals></device>";

#[test]
fn minimal_round_trip_counts() {
    let description = parse_svd(MINIMAL.as_bytes()).unwrap();
    let out = emit_description(&description);
    assert_eq!(out.matches("pub const HW_UART_BASE").count(), 1);
    assert_eq!(
        out.matches("pub const CTRL: crate::Register = crate::Register::new(4);")
            .count(),
        1
    );
    assert_eq!(
        out.matches("pub const CTRL_EN: crate::Field = crate::Field::new(1, 2, CTRL);")
            .count(),
        1
    );
}

#[test]
fn field_constant_width_and_offset() {
    let description = parse_svd(MINIMAL.as_bytes()).unwrap();
    let out = emit_description(&description);
    assert!(out.contains("crate::Field::new(1, 2, CTRL)"));
}

#[test]
fn emitting_twice_is_byte_identical() {
    let description = parse_svd(MINIMAL.as_bytes()).unwrap();
    let first = emit_description(&description);
    let second = emit_description(&description);
    assert_eq!(first, second);
}

#[test]
fn missing_address_offset_fails() {
    let doc = "<peripherals><peripheral><name>uart</name><baseAddress>0</baseAddress><size>4</size><registers><register><name>CTRL</name></register></registers></peripheral></peripherals>";
    assert!(matches!(
        parse_svd(doc.as_bytes()),
        Err(ParseError::MissingValue)
    ));
}

#[test]
fn missing_name_fails() {
    let doc = "<peripherals><peripheral><baseAddress>0</baseAddress><size>4</size></peripheral></peripherals>";
    assert!(matches!(
        parse_svd(doc.as_bytes()),
        Err(ParseError::MissingValue)
    ));
}

#[test]
fn bad_numeric_literal_fails() {
    let doc = "<peripherals><peripheral><name>uart</name><baseAddress>0xZZ</baseAddress><size>4</size></peripheral></peripherals>";
    assert!(matches!(
        parse_svd(doc.as_bytes()),
        Err(ParseError::ParseIntError)
    ));
}

#[test]
fn comment_inside_container_fails() {
    let doc = "<peripherals><!-- stray --></peripherals>";
    assert!(matches!(
        parse_svd(doc.as_bytes()),
        Err(ParseError::UnexpectedTag)
    ));
}

#[test]
fn non_utf8_text_fails() {
    let mut doc: Vec<u8> = Vec::new();
    doc.extend_from_slice(b"<peripherals><peripheral><name>");
    doc.extend_from_slice(&[0xFF, 0xFE]);
    doc.extend_from_slice(b"</name></peripheral></peripherals>");
    assert!(matches!(parse_svd(&doc), Err(ParseError::NonUTF8)));
}

#[test]
fn document_order_is_preserved() {
    let doc = "<peripherals><peripheral><name>zulu</name><baseAddress>1</baseAddress><size>4</size><registers><register><name>ZREG</name><addressOffset>0</addressOffset></register><register><name>AREG</name><addressOffset>1</addressOffset></register></registers></peripheral><peripheral><name>alpha</name><baseAddress>2</baseAddress><size>4</size></peripheral></peripherals>";
    let description = parse_svd(doc.as_bytes()).unwrap();
    let out = emit_description(&description);
    let zulu = out.find("pub const HW_ZULU_BASE").unwrap();
    let alpha = out.find("pub const HW_ALPHA_BASE").unwrap();
    assert!(zulu < alpha);
    let zreg = out.find("pub const ZREG:").unwrap();
    let areg = out.find("pub const AREG:").unwrap();
    assert!(zreg < areg);
}

#[test]
fn memory_region_constants() {
    let doc = "<device><vendorExtensions><memoryRegions><memoryRegion><name>RAM</name><baseAddress>0x40000000</baseAddress><size>65536</size></memoryRegion></memoryRegions></vendorExtensions></device>";
    let out = generate(doc.as_bytes()).unwrap();
    assert!(out.contains("pub const HW_RAM_MEM:     usize = 0x40000000;"));
    assert!(out.contains("pub const HW_RAM_MEM_LEN: usize = 65536;"));
}

#[test]
fn interrupt_constants() {
    let doc = "<peripherals><peripheral><name>uart</name><baseAddress>0xF0002000</baseAddress><size>0x1000</size><interrupt><name>uart_irq</name><value>3</value></interrupt></peripheral></peripherals>";
    let out = generate(doc.as_bytes()).unwrap();
    assert!(out.contains("pub const UART_IRQ_IRQ: usize = 3;"));
}

#[test]
fn self_check_block_exercises_symbols() {
    let out = generate(MINIMAL.as_bytes()).unwrap();
    assert!(out.contains("let mut uart_csr = CSR::new(HW_UART_BASE as *mut u32);"));
    assert!(out.contains("let foo = uart_csr.r(utra::uart::CTRL);"));
    assert!(out.contains("uart_csr.wo(utra::uart::CTRL, foo);"));
    assert!(out.contains("let bar = uart_csr.rf(utra::uart::CTRL_EN);"));
    assert!(out.contains("uart_csr.rmwf(utra::uart::CTRL_EN, bar);"));
    assert!(out.contains("let mut baz = uart_csr.zf(utra::uart::CTRL_EN, bar);"));
    assert!(out.contains("baz |= uart_csr.ms(utra::uart::CTRL_EN, 1);"));
    assert!(out.contains("uart_csr.wfo(utra::uart::CTRL_EN, baz);"));
}

#[test]
fn preamble_precedes_constants() {
    let out = generate(MINIMAL.as_bytes()).unwrap();
    let accessor = out.find("pub struct CSR<T>").unwrap();
    let base = out.find("pub const HW_UART_BASE").unwrap();
    assert!(accessor < base);
}

#[test]
fn entity_text_is_unescaped() {
    let doc = "<peripherals><peripheral><name>a&amp;b</name><baseAddress>0</baseAddress><size>4</size></peripheral></peripherals>";
    let description = parse_svd(doc.as_bytes()).unwrap();
    assert_eq!(description.peripherals.len(), 1);
    assert_eq!(description.peripherals[0].name, "a&b");
    assert_eq!(description.peripherals[0].base, 0);
}

#[test]
fn unknown_tags_are_ignored() {
    let doc = "<device><cpu><name>ignored</name></cpu><peripherals><peripheral><name>gpio</name><baseAddress>0x10</baseAddress><size>8</size><access>rw</access></peripheral></peripherals></device>";
    let description = parse_svd(doc.as_bytes()).unwrap();
    assert_eq!(description.peripherals.len(), 1);
    assert_eq!(description.peripherals[0].base, 16);
}

#[test]
fn empty_fields_block_yields_no_field_constants() {
    let doc = "<peripherals><peripheral><name>gpio</name><baseAddress>0</baseAddress><size>4</size><registers><register><name>OUT</name><addressOffset>0</addressOffset><fields></fields></register></registers></peripheral></peripherals>";
    let out = generate(doc.as_bytes()).unwrap();
    assert!(out.contains("pub const OUT: crate::Register = crate::Register::new(0);"));
    assert!(!out.contains("crate::Field::new"));
}

#[test]
fn reversed_bit_range_wraps_width_to_zero() {
    let doc = "<peripherals><peripheral><name>gpio</name><baseAddress>0</baseAddress><size>4</size><registers><register><name>OUT</name><addressOffset>0</addressOffset><fields><field><name>W</name><lsb>3</lsb><msb>2</msb></field></fields></register></registers></peripheral></peripherals>";
    let out = generate(doc.as_bytes()).unwrap();
    assert!(out.contains("pub const OUT_W: crate::Field = crate::Field::new(0, 3, OUT);"));
}

#[test]
fn truncated_document_fails() {
    let doc = "<peripherals><peripheral><name>uart</name>";
    assert!(parse_svd(doc.as_bytes()).is_err());
}

#[test]
fn xml_declaration_is_ignored() {
    let doc = "<?xml version=\"1.0\" encoding=\"utf-8\"?>\n<device><peripherals><peripheral><name>timer</name><baseAddress>0x20</baseAddress><size>16</size></peripheral></peripherals></device>";
    let description = parse_svd(doc.as_bytes()).unwrap();
    assert_eq!(description.peripherals.len(), 1);
    assert_eq!(description.peripherals[0].base, 32);
}

#[test]
fn scalar_tag_at_end_of_document_fails() {
    let doc = "<peripherals><peripheral><name>";
    assert!(matches!(
        parse_svd(doc.as_bytes()),
        Err(ParseError::UnexpectedTag)
    ));
}

#[test]
fn empty_numeric_scalar_fails() {
    let doc = "<peripherals><peripheral><name>uart</name><baseAddress></baseAddress><size>4</size></peripheral></peripherals>";
    assert!(matches!(
        parse_svd(doc.as_bytes()),
        Err(ParseError::ParseIntError)
    ));
}

#[test]
fn second_peripherals_block_replaces_the_first() {
    let doc = "<device><peripherals><peripheral><name>one</name><baseAddress>1</baseAddress><size>4</size></peripheral></peripherals><peripherals><peripheral><name>two</name><baseAddress>2</baseAddress><size>4</size></peripheral></peripherals></device>";
    let description = parse_svd(doc.as_bytes()).unwrap();
    assert_eq!(description.peripherals.len(), 1);
    assert_eq!(description.peripherals[0].name, "two");
}

#[test]
fn vendor_extension_blocks_accumulate() {
    let doc = "<device><vendorExtensions><memoryRegions><memoryRegion><name>RAM</name><baseAddress>1</baseAddress><size>2</size></memoryRegion></memoryRegions></vendorExtensions><vendorExtensions><memoryRegions><memoryRegion><name>ROM</name><baseAddress>3</baseAddress><size>4</size></memoryRegion></memoryRegions></vendorExtensions></device>";
    let description = parse_svd(doc.as_bytes()).unwrap();
    assert_eq!(description.memory_regions.len(), 2);
    assert_eq!(description.memory_regions[0].name, "RAM");
    assert_eq!(description.memory_regions[1].name, "ROM");
}

#[test]
fn multiple_interrupts_in_order() {
    let doc = "<peripherals><peripheral><name>dma</name><baseAddress>0</baseAddress><size>4</size><interrupt><name>done</name><value>7</value></interrupt><interrupt><name>err</name><value>8</value></interrupt></peripheral></peripherals>";
    let out = generate(doc.as_bytes()).unwrap();
    let done = out.find("pub const DONE_IRQ: usize = 7;").unwrap();
    let err = out.find("pub const ERR_IRQ: usize = 8;").unwrap();
    assert!(done < err);
}

#[test]
fn empty_input_yields_empty_description() {
    let description = parse_svd(b"").unwrap();
    assert_eq!(description.peripherals.len(), 0);
    assert_eq!(description.memory_regions.len(), 0);
}
