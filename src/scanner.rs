//! A forward-only scan of a markup document into element events, read with
//! quick-xml.

use quick_xml::events::Event;
use quick_xml::Reader;
use vstd::prelude::*;

verus! {

/// One attribute of an element: its key and its value as decoded text.
#[derive(Clone, Debug, PartialEq, Eq)]
pub struct Attribute {
    pub key: String,
    pub value: String,
}

/// An element as the scanner reports it: its tag name and its attributes in
/// document order. `None` stands for an attribute that could not be read.
#[derive(Clone, Debug, PartialEq, Eq)]
pub struct Element {
    pub name: String,
    pub attributes: Vec<Option<Attribute>>,
}

/// One step of a scan.
#[derive(Clone, Debug, PartialEq, Eq)]
pub enum ScanEvent {
    /// An opening tag, `<name ...>`.
    Start(Element),
    /// A self-closing tag, `<name .../>`.
    Empty(Element),
    /// The document ended.
    EndOfDocument,
    /// The document could not be read further.
    Malformed,
    /// Anything else: text, closing tags, comments, declarations.
    Other,
}

/// A scan stops at the end of the document and at the first malformed spot.
pub open spec fn is_terminal(e: ScanEvent) -> bool {
    e is EndOfDocument || e is Malformed
}

/// The shape of every complete scan: one or more events, the last of them,
/// and only the last, terminal.
pub open spec fn is_complete_scan(evs: Seq<ScanEvent>) -> bool {
    &&& evs.len() > 0
    &&& is_terminal(evs.last())
    &&& forall|j: int| 0 <= j < evs.len() - 1 ==> !is_terminal(#[trigger] evs[j])
}

/// quick-xml's reader, opaque here: what it will hand out is `pending_events`.
#[verifier::external_type_specification]
#[verifier::external_body]
#[verifier::reject_recursive_types(R)]
pub struct ExReader<R>(Reader<R>);

/// The events that quick-xml yields for a document, with whitespace-only
/// text skipped, up to and including the first end or error.
pub uninterp spec fn document_events(doc: Seq<char>) -> Seq<ScanEvent>;

/// The events that a reader has still to hand out, up to and including the
/// first end or error.
pub uninterp spec fn pending_events(reader: Reader<&[u8]>) -> Seq<ScanEvent>;

/// Relies on quick-xml's `Reader::from_str` and `Reader::trim_text`: a reader
/// at the start of `doc` that skips whitespace-only text. Reading a finite
/// text, it reaches the end or an error after finitely many events.
#[verifier::external_body]
fn open_reader(doc: &str) -> (r: Reader<&[u8]>)
    ensures
        pending_events(r) == document_events(doc@),
        is_complete_scan(pending_events(r)),
{
    let mut reader = Reader::from_str(doc);
    reader.trim_text(true);
    reader
}

/// Relies on quick-xml's `Reader::read_event`: it hands out the next event
/// and moves past it. The tag's name (`BytesStart::name`) and attribute keys
/// are taken as text; attributes come from `BytesStart::attributes` in
/// document order, their values from `Attribute::unescape_value`. An
/// attribute that does not parse or unescape becomes `None`.
#[verifier::external_body]
fn next_event(reader: &mut Reader<&[u8]>) -> (e: ScanEvent)
    requires
        pending_events(*old(reader)).len() > 0,
    ensures
        e == pending_events(*old(reader))[0],
        pending_events(*final(reader)) == pending_events(*old(reader)).drop_first(),
{
    let (start, e) = match reader.read_event() {
        Ok(Event::Start(e)) => (true, e),
        Ok(Event::Empty(e)) => (false, e),
        Ok(Event::Eof) => return ScanEvent::EndOfDocument,
        Ok(_) => return ScanEvent::Other,
        Err(_) => return ScanEvent::Malformed,
    };
    let element = Element {
        name: String::from_utf8_lossy(e.name().as_ref()).into_owned(),
        attributes: e.attributes().map(|a| a.ok().and_then(|a| Some(Attribute {
            key: String::from_utf8_lossy(a.key.as_ref()).into_owned(),
            value: a.unescape_value().ok()?.into_owned(),
        }))).collect(),
    };
    if start { ScanEvent::Start(element) } else { ScanEvent::Empty(element) }
}

/// Scans `doc` from its start: every event up to and including the end of
/// the document or the first malformed spot.
pub fn scan_document(doc: &str) -> (r: Vec<ScanEvent>)
    ensures
        r@ == document_events(doc@),
        is_complete_scan(r@),
{
    let mut reader = open_reader(doc);
    let ghost all = document_events(doc@);
    let mut out: Vec<ScanEvent> = Vec::new();
    loop
        invariant
            all == document_events(doc@),
            is_complete_scan(all),
            all == out@ + pending_events(reader),
            pending_events(reader).len() > 0,
            forall|j: int| 0 <= j < out@.len() ==> !is_terminal(#[trigger] out@[j]),
        decreases pending_events(reader).len(),
    {
        let ghost before = pending_events(reader);
        let e = next_event(&mut reader);
        let stop = is_terminal_event(&e);
        out.push(e);
        assert(all == out@ + pending_events(reader)) by {
            assert(before =~= seq![e] + before.drop_first());
        }
        if stop {
            assert(out@.len() == all.len()) by {
                if out@.len() < all.len() {
                    assert(all[out@.len() - 1] == e);
                }
            }
            assert(out@ =~= all);
            return out;
        }
    }
}

/// Whether the scan stops at `e`.
pub fn is_terminal_event(e: &ScanEvent) -> (r: bool)
    ensures
        r == is_terminal(*e),
{
    match e {
        ScanEvent::EndOfDocument | ScanEvent::Malformed => true,
        _ => false,
    }
}

} // verus!
