//! A thin layer over the XML tokenizer: each event of the stream is reduced
//! to plain values (tag names and decoded text). The tokenizer consumes a
//! byte slice alone — no chance, time or environment enters — so the event
//! it serves at each position is a function of the input bytes and the
//! position, which `spec_event_at` names; `spec_tokenize` states what a
//! whole tokenization yields over that name.

use vstd::prelude::*;

use quick_xml::events::Event;

use crate::model::views;
use crate::ParseError;

verus! {

/// One tokenized XML event, reduced to plain values. A start tag carries its
/// name and, separately, its full decoded text (name plus attributes, with
/// entities unescaped), which is what scalar-tag dispatch matches on; an end
/// tag carries its name; character data carries its decoded text. Everything
/// else (comments, CDATA, declarations, processing instructions, doctypes,
/// self-closing tags) is `Other`.
#[derive(Debug)]
pub enum XmlEvent {
    Start { name: String, text: String },
    End { name: String },
    Text { text: String },
    Other,
}

/// Mathematical model of an `XmlEvent`.
pub ghost enum XmlEventV {
    Start { name: Seq<char>, text: Seq<char> },
    End { name: Seq<char> },
    Text { text: Seq<char> },
    Other,
}

impl View for XmlEvent {
    type V = XmlEventV;

    open spec fn view(&self) -> XmlEventV {
        match self {
            XmlEvent::Start { name, text } => XmlEventV::Start { name: name@, text: text@ },
            XmlEvent::End { name } => XmlEventV::End { name: name@ },
            XmlEvent::Text { text } => XmlEventV::Text { text: text@ },
            XmlEvent::Other => XmlEventV::Other,
        }
    }
}

/// What the tokenizer serves as its event at position `k` over the given
/// input bytes: the converted event, `Ok(None)` at end-of-document, or the
/// failure. quick_xml reads the bytes alone, so this is a function of
/// `(src, k)`; the trusted items below state their results over this name.
pub uninterp spec fn spec_event_at(src: Seq<u8>, k: int) -> Result<Option<XmlEventV>, ParseError>;

/// Holds quick_xml's streaming reader. Its type carries a `BufRead` bound
/// that cannot be stated in a type declaration here, so it is held opaquely.
#[verifier::external_body]
struct RawReader<'a> {
    inner: quick_xml::Reader<&'a [u8]>,
}

/// The tokenizer together with its model: the bytes it was built over and
/// how many events it has served so far.
struct EventReader<'a> {
    raw: RawReader<'a>,
    bytes: Ghost<Seq<u8>>,
    served: Ghost<int>,
}

/// Relies on quick_xml::Reader::from_reader: builds a streaming XML
/// tokenizer over the given input bytes.
#[verifier::external_body]
fn raw_reader(src: &[u8]) -> RawReader<'_> {
    RawReader { inner: quick_xml::Reader::from_reader(src) }
}

/// A tokenizer over the given input bytes; no event has been served yet.
fn make_reader(src: &[u8]) -> (r: EventReader<'_>)
    ensures
        r.bytes@ == src@,
        r.served@ == 0,
{
    EventReader { raw: raw_reader(src), bytes: Ghost(src@), served: Ghost(0int) }
}

/// Relies on String::from_utf8: decodes tag-name bytes, failing with
/// `NonUTF8` where they are not valid UTF-8.
#[verifier::external_body]
fn name_string(b: &[u8]) -> Result<String, ParseError> {
    String::from_utf8(b.to_vec()).or(Err(ParseError::NonUTF8))
}

/// Relies on quick_xml::Reader::read_event: serves the reader's next event,
/// converted to plain values (start and end tags with their names, start
/// tags also with their full text and character data with its text, both
/// decoded by quick_xml's unescape_and_decode). `Ok(None)` is
/// end-of-document; a decoding failure is `NonUTF8`; a tokenizer failure
/// (malformed or truncated XML) is `UnexpectedTag`. The reader consumes its
/// byte slice alone, so what the call at each position returns is the named
/// event of the bytes at that position.
#[verifier::external_body]
fn next_event(reader: &mut EventReader<'_>) -> (r: Result<Option<XmlEvent>, ParseError>)
    ensures
        final(reader).bytes@ == old(reader).bytes@,
        final(reader).served@ == old(reader).served@ + 1,
        match r {
            Ok(Some(e)) => spec_event_at(old(reader).bytes@, old(reader).served@) == Ok::<
                Option<XmlEventV>,
                ParseError,
            >(Some(e@)),
            Ok(None) => spec_event_at(old(reader).bytes@, old(reader).served@) == Ok::<
                Option<XmlEventV>,
                ParseError,
            >(None),
            Err(e) => spec_event_at(old(reader).bytes@, old(reader).served@) == Err::<
                Option<XmlEventV>,
                ParseError,
            >(e),
        },
{
    let mut buf = Vec::new();
    let ev = match reader.raw.inner.read_event(&mut buf) {
        Ok(e) => e,
        Err(_) => return Err(ParseError::UnexpectedTag),
    };
    Ok(match ev {
        Event::Start(e) => Some(XmlEvent::Start {
            name: name_string(e.name())?,
            text: e.unescape_and_decode(&reader.raw.inner).or(Err(ParseError::NonUTF8))?,
        }),
        Event::End(e) => Some(XmlEvent::End { name: name_string(e.name())? }),
        Event::Text(t) => Some(XmlEvent::Text { text: t.unescape_and_decode(&reader.raw.inner).or(Err(ParseError::NonUTF8))? }),
        Event::Eof => None,
        _ => Some(XmlEvent::Other),
    })
}

/// The event list a tokenization yields, collecting the events from
/// position `k` onward onto `acc`: end-of-document closes the list, the
/// first failure aborts, and a stream still serving events after as many as
/// the input has bytes is malformed (every event before end-of-document
/// consumes at least one input byte).
pub open spec fn spec_collect(src: Seq<u8>, k: int, acc: Seq<XmlEventV>) -> Result<
    Seq<XmlEventV>,
    ParseError,
>
    decreases src.len() - k,
{
    if k < 0 || k >= src.len() {
        match spec_event_at(src, k) {
            Ok(None) => Ok(acc),
            Ok(Some(_)) => Err(ParseError::UnexpectedTag),
            Err(e) => Err(e),
        }
    } else {
        match spec_event_at(src, k) {
            Ok(Some(e)) => spec_collect(src, k + 1, acc.push(e)),
            Ok(None) => Ok(acc),
            Err(e) => Err(e),
        }
    }
}

/// The event list a whole document's bytes tokenize to, or the first
/// tokenizer or decoding failure.
pub open spec fn spec_tokenize(src: Seq<u8>) -> Result<Seq<XmlEventV>, ParseError> {
    spec_collect(src, 0, Seq::empty())
}

/// Tokenize a whole document into its event list, up to end-of-document.
pub fn tokenize(src: &[u8]) -> (r: Result<Vec<XmlEvent>, ParseError>)
    ensures
        match r {
            Ok(v) => spec_tokenize(src@) == Ok::<Seq<XmlEventV>, ParseError>(views(v@)),
            Err(e) => spec_tokenize(src@) == Err::<Seq<XmlEventV>, ParseError>(e),
        },
{
    let mut reader = make_reader(src);
    let mut events: Vec<XmlEvent> = Vec::new();
    let n = src.len();
    let mut k: usize = 0;
    proof {
        assert(views(events@) =~= Seq::<XmlEventV>::empty());
    }
    while k < n
        invariant
            k <= n,
            n == src@.len(),
            reader.bytes@ == src@,
            reader.served@ == k as int,
            spec_tokenize(src@) == spec_collect(src@, k as int, views(events@)),
        decreases n - k,
    {
        match next_event(&mut reader) {
            Ok(Some(e)) => {
                proof {
                    assert(views(events@.push(e)) =~= views(events@).push(e@));
                }
                events.push(e);
            },
            Ok(None) => {
                return Ok(events);
            },
            Err(e) => {
                return Err(e);
            },
        }
        k = k + 1;
    }
    match next_event(&mut reader) {
        Ok(None) => Ok(events),
        Ok(Some(_)) => Err(ParseError::UnexpectedTag),
        Err(e) => Err(e),
    }
}

} // verus!
