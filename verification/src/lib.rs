pub mod emit;
pub mod model;
pub mod num;
pub mod parse;
pub mod text;
pub mod xml;

pub use emit::{emit_description, print_header, print_memory_regions, print_peripherals, print_tests};
pub use model::{Description, Field, Interrupt, MemoryRegion, Peripheral, Register};
pub use num::{get_base, parse_usize};
pub use parse::parse_svd;
pub use xml::XmlEvent;

use vstd::prelude::*;

verus! {

/// The ways a conversion can fail: a structural mismatch against the
/// expected schema shape, a required child element that never appeared,
/// a numeric literal that does not parse, text that is not valid UTF-8,
/// or a failure while writing the generated module out.
#[derive(Debug, Clone, Copy, PartialEq, Eq, Structural)]
pub enum ParseError {
    UnexpectedTag,
    MissingValue,
    ParseIntError,
    NonUTF8,
    WriteError,
}

/// What the whole conversion yields: the rendering of the parsed
/// description, or the first parse failure — emission is never attempted
/// after one.
pub open spec fn spec_generate(src: Seq<u8>) -> Result<Seq<char>, ParseError> {
    match parse::spec_parse_svd(src) {
        Ok(d) => Ok(emit::spec_emit(d)),
        Err(e) => Err(e),
    }
}

/// Convert an SVD document into the generated module's text: parse the
/// bytes into the normalized description, then render it. `spec_generate`
/// states the result exactly.
pub fn generate(src: &[u8]) -> (r: Result<String, ParseError>)
    ensures
        match r {
            Ok(s) => spec_generate(src@) == Ok::<Seq<char>, ParseError>(s@),
            Err(e) => spec_generate(src@) == Err::<Seq<char>, ParseError>(e),
        },
{
    let description = match parse_svd(src) {
        Ok(d) => d,
        Err(e) => {
            return Err(e);
        },
    };
    Ok(emit::emit_description(&description))
}

} // verus!
