//! Re-indenting XML text: the text is read as a stream of events, and the events are
//! written out again with indentation.
//!
//! The reader and the writer are those of the `xml` crate. What the reader finds in a
//! source, whether the writer refuses an event and which bytes it holds are named, and the
//! text that comes back is stated over these names.

use vstd::prelude::*;

verus! {

/// Why a document could not be rendered.
#[derive(Debug)]
pub enum SerializationFailure {
    /// The text is not well-formed XML; the reader's error says where and why.
    Malformed(xml::reader::Error),
    /// The writer refused an event; its error says why.
    Unwritable(xml::writer::Error),
    /// The bytes that the writer produced are not UTF-8; the error says where.
    Encoding(std::string::FromUtf8Error),
}

/// `xml::reader::XmlEvent`, an event that the reader found. What it holds is known by
/// [`event_held`] alone.
#[verifier::external_type_specification]
#[verifier::external_body]
pub struct ExReaderEvent(xml::reader::XmlEvent);

/// `xml::reader::Error`, the error of the reader; nothing is known of what it holds.
#[verifier::external_type_specification]
#[verifier::external_body]
pub struct ExReaderError(xml::reader::Error);

/// `xml::writer::XmlEvent`, an event in the form that the writer takes. What it holds is
/// known by [`writer_event_held`] alone.
#[verifier::external_type_specification]
#[verifier::external_body]
pub struct ExWriterEvent<'a>(xml::writer::XmlEvent<'a>);

/// `xml::writer::Error`, the error of the writer; nothing is known of what it holds.
#[verifier::external_type_specification]
#[verifier::external_body]
pub struct ExWriterError(xml::writer::Error);

/// `xml::writer::EventWriter`, the writer and the sink it writes to. What it has taken is
/// known by [`writer_held`] alone.
#[verifier::external_type_specification]
#[verifier::external_body]
#[verifier::reject_recursive_types(W)]
pub struct ExEventWriter<W>(xml::writer::EventWriter<W>);

/// `std::string::FromUtf8Error`, the error of `String::from_utf8`; nothing is known of
/// what it holds.
#[verifier::external_type_specification]
#[verifier::external_body]
pub struct ExFromUtf8Error(std::string::FromUtf8Error);

/// The version of XML that a document declares.
pub enum Version {
    Version10,
    Version11,
}

/// A qualified name, as the `xml` crate holds it.
pub struct NameView {
    pub local_name: Seq<char>,
    pub namespace: Option<Seq<char>>,
    pub prefix: Option<Seq<char>>,
}

/// An attribute of an element.
pub struct AttributeView {
    pub name: NameView,
    pub value: Seq<char>,
}

/// What an event of the reader holds.
pub enum ReadEvent {
    StartDocument { version: Version, encoding: Seq<char>, standalone: Option<bool> },
    EndDocument,
    ProcessingInstruction { target: Seq<char>, data: Option<Seq<char>> },
    StartElement {
        name: NameView,
        attributes: Seq<AttributeView>,
        namespace: Map<Seq<char>, Seq<char>>,
    },
    EndElement { name: NameView },
    CData(Seq<char>),
    Comment(Seq<char>),
    Characters(Seq<char>),
    Whitespace(Seq<char>),
}

/// What an event holds in the form that the writer takes.
#[allow(inconsistent_fields)]
pub enum WriteEvent {
    StartDocument { version: Version, encoding: Option<Seq<char>>, standalone: Option<bool> },
    ProcessingInstruction { target: Seq<char>, data: Option<Seq<char>> },
    StartElement {
        name: NameView,
        attributes: Seq<AttributeView>,
        namespace: Map<Seq<char>, Seq<char>>,
    },
    EndElement { name: Option<NameView> },
    CData(Seq<char>),
    Comment(Seq<char>),
    Characters(Seq<char>),
}

/// What a writer has taken so far, and the settings it was made with.
pub struct WriterState {
    pub perform_indent: bool,
    pub normalize_empty_elements: bool,
    pub autopad_comments: bool,
    pub events: Seq<WriteEvent>,
}

/// The events that the XML reader of the `xml` crate gives for `src` up to the end of the
/// document, under the two settings given; `None` where the reader refuses `src`.
pub uninterp spec fn xml_events(src: Seq<u8>, trim_whitespace: bool, ignore_comments: bool) -> Option<
    Seq<ReadEvent>,
>;

/// What an event of the reader holds.
pub uninterp spec fn event_held(event: xml::reader::XmlEvent) -> ReadEvent;

/// What an event holds that is in the form of the writer.
pub uninterp spec fn writer_event_held(event: xml::writer::XmlEvent) -> WriteEvent;

/// What a writer has taken and how it was made. It is `Some` for a writer that was made
/// over an empty buffer with the three settings named and every other setting as the crate
/// sets it, and that has since taken the events named, in their order, and refused none;
/// `None` for any other writer.
pub uninterp spec fn writer_held(writer: xml::writer::EventWriter<Vec<u8>>) -> Option<
    WriterState,
>;

/// Whether a writer made with the three settings refuses `event` after it has taken
/// `taken`.
pub uninterp spec fn xml_refuses(
    taken: Seq<WriteEvent>,
    event: WriteEvent,
    perform_indent: bool,
    normalize_empty_elements: bool,
    autopad_comments: bool,
) -> bool;

/// The bytes that a writer made with the three settings holds after it has taken `taken`.
pub uninterp spec fn xml_bytes(
    taken: Seq<WriteEvent>,
    perform_indent: bool,
    normalize_empty_elements: bool,
    autopad_comments: bool,
) -> Seq<u8>;

/// Whether the reader reads `src` to the end of the document without an error.
pub open spec fn xml_readable(src: Seq<u8>, trim_whitespace: bool, ignore_comments: bool) -> bool {
    xml_events(src, trim_whitespace, ignore_comments) is Some
}

/// What each of a list of events of the reader holds, in order.
pub open spec fn held_events(events: Seq<xml::reader::XmlEvent>) -> Seq<ReadEvent> {
    Seq::new(events.len(), |i: int| event_held(events[i]))
}

/// The form in which the writer takes an event of the reader: the event itself, with
/// white space as characters; the end of the document has no such form.
pub open spec fn writer_form(event: ReadEvent) -> Option<WriteEvent> {
    match event {
        ReadEvent::StartDocument { version, encoding, standalone } => Some(
            WriteEvent::StartDocument { version, encoding: Some(encoding), standalone },
        ),
        ReadEvent::EndDocument => None,
        ReadEvent::ProcessingInstruction { target, data } => Some(
            WriteEvent::ProcessingInstruction { target, data },
        ),
        ReadEvent::StartElement { name, attributes, namespace } => Some(
            WriteEvent::StartElement { name, attributes, namespace },
        ),
        ReadEvent::EndElement { name } => Some(WriteEvent::EndElement { name: Some(name) }),
        ReadEvent::CData(data) => Some(WriteEvent::CData(data)),
        ReadEvent::Comment(data) => Some(WriteEvent::Comment(data)),
        ReadEvent::Characters(data) => Some(WriteEvent::Characters(data)),
        ReadEvent::Whitespace(data) => Some(WriteEvent::Characters(data)),
    }
}

/// What the writer is given of the first `n` events: the form of each that has one.
pub open spec fn given(events: Seq<ReadEvent>, n: nat) -> Seq<WriteEvent>
    decreases n,
{
    if n == 0 {
        Seq::empty()
    } else {
        match writer_form(events[n - 1]) {
            Some(event) => given(events, (n - 1) as nat).push(event),
            None => given(events, (n - 1) as nat),
        }
    }
}

/// Whether a writer made with the three settings takes what it is given of the first `n`
/// events, refusing none.
pub open spec fn takes(
    events: Seq<ReadEvent>,
    n: nat,
    perform_indent: bool,
    normalize_empty_elements: bool,
    autopad_comments: bool,
) -> bool
    decreases n,
{
    n == 0 || (takes(
        events,
        (n - 1) as nat,
        perform_indent,
        normalize_empty_elements,
        autopad_comments,
    ) && match writer_form(events[n - 1]) {
        Some(event) => !xml_refuses(
            given(events, (n - 1) as nat),
            event,
            perform_indent,
            normalize_empty_elements,
            autopad_comments,
        ),
        None => true,
    })
}

/// The bytes that a fresh writer with the three settings holds after the events of a
/// reader, each given in the form that the writer takes; `None` where the writer refuses
/// one of them.
pub open spec fn xml_written(
    events: Seq<ReadEvent>,
    perform_indent: bool,
    normalize_empty_elements: bool,
    autopad_comments: bool,
) -> Option<Seq<u8>> {
    if takes(events, events.len(), perform_indent, normalize_empty_elements, autopad_comments) {
        Some(
            xml_bytes(
                given(events, events.len()),
                perform_indent,
                normalize_empty_elements,
                autopad_comments,
            ),
        )
    } else {
        None
    }
}

/// Whether `text` is what re-indenting `src` gives. The source is read with surrounding
/// white space trimmed and comments kept, and written with indentation, with empty
/// elements and comments left as they are. A source that the reader refuses is malformed;
/// events that the writer refuses are unwritable; and the bytes written, decoded as
/// UTF-8, are the text.
pub open spec fn reindented(src: Seq<u8>, text: Result<String, SerializationFailure>) -> bool {
    match xml_events(src, true, false) {
        None => text matches Err(SerializationFailure::Malformed(_)),
        Some(events) => match xml_written(events, true, false, false) {
            None => text matches Err(SerializationFailure::Unwritable(_)),
            Some(bytes) => match text {
                Ok(t) => vstd::utf8::valid_utf8(bytes) && t@ == vstd::utf8::decode_utf8(bytes),
                Err(e) => !vstd::utf8::valid_utf8(bytes) && e is Encoding,
            },
        },
    }
}

/// A writer that refuses what it is given of some events refuses it of any longer list.
pub proof fn lemma_refusal_stays(
    events: Seq<ReadEvent>,
    k: nat,
    n: nat,
    perform_indent: bool,
    normalize_empty_elements: bool,
    autopad_comments: bool,
)
    requires
        k <= n,
        !takes(events, k, perform_indent, normalize_empty_elements, autopad_comments),
    ensures
        !takes(events, n, perform_indent, normalize_empty_elements, autopad_comments),
    decreases n,
{
    if k < n {
        lemma_refusal_stays(
            events,
            k,
            (n - 1) as nat,
            perform_indent,
            normalize_empty_elements,
            autopad_comments,
        );
    }
}

/// `xml::reader::ParserConfig::create_reader` on `src`, with the two settings given and
/// the others as the crate sets them, and the events of that reader up to its first error
/// or the end of the document. The events, or that the reader refuses `src`, depend on
/// `src` and the two settings alone. The reader may panic, as the crate says of its
/// parser; this call then unwinds.
#[verifier::external_body]
fn read_events(src: &[u8], trim_whitespace: bool, ignore_comments: bool) -> (events: Result<
    Vec<xml::reader::XmlEvent>,
    xml::reader::Error,
>)
    ensures
        match events {
            Ok(list) => xml_events(src@, trim_whitespace, ignore_comments) == Some(
                held_events(list@),
            ),
            Err(_) => xml_events(src@, trim_whitespace, ignore_comments) is None,
        },
{
    xml::reader::ParserConfig::new()
        .trim_whitespace(trim_whitespace)
        .ignore_comments(ignore_comments)
        .create_reader(src)
        .into_iter()
        .collect()
}

/// `xml::reader::XmlEvent::as_writer_event`: the event in the form that a writer takes,
/// where there is one. The form holds what the event holds, white space as characters;
/// the end of the document has none.
#[verifier::external_body]
fn as_writer_event<'a>(event: &'a xml::reader::XmlEvent) -> (form: Option<
    xml::writer::XmlEvent<'a>,
>)
    ensures
        match form {
            Some(e) => writer_form(event_held(*event)) == Some(writer_event_held(e)),
            None => writer_form(event_held(*event)) is None,
        },
{
    event.as_writer_event()
}

/// `xml::writer::EmitterConfig::create_writer` on an empty buffer, with the three
/// settings given and the others as the crate sets them. The writer has taken nothing.
#[verifier::external_body]
fn new_writer(
    perform_indent: bool,
    normalize_empty_elements: bool,
    autopad_comments: bool,
) -> (writer: xml::writer::EventWriter<Vec<u8>>)
    ensures
        writer_held(writer) == Some(
            WriterState {
                perform_indent,
                normalize_empty_elements,
                autopad_comments,
                events: Seq::empty(),
            },
        ),
{
    xml::writer::EmitterConfig::new()
        .perform_indent(perform_indent)
        .normalize_empty_elements(normalize_empty_elements)
        .autopad_comments(autopad_comments)
        .create_writer(Vec::new())
}

/// `xml::writer::EventWriter::write`: writes one event to the buffer of the writer. A
/// writer that takes the event has taken one event more; whether it refuses the event
/// depends on its settings, on what it has taken and on the event alone.
#[verifier::external_body]
fn write_event<'a>(
    writer: &mut xml::writer::EventWriter<Vec<u8>>,
    event: xml::writer::XmlEvent<'a>,
) -> (taken: Result<(), xml::writer::Error>)
    ensures
        writer_held(*old(writer)) matches Some(state) ==> match taken {
            Ok(_) => !xml_refuses(
                state.events,
                writer_event_held(event),
                state.perform_indent,
                state.normalize_empty_elements,
                state.autopad_comments,
            ) && writer_held(*final(writer)) == Some(
                WriterState { events: state.events.push(writer_event_held(event)), ..state },
            ),
            Err(_) => xml_refuses(
                state.events,
                writer_event_held(event),
                state.perform_indent,
                state.normalize_empty_elements,
                state.autopad_comments,
            ),
        },
{
    writer.write(event)
}

/// `xml::writer::EventWriter::into_inner`: the buffer of the writer, with the bytes that
/// it holds after what it has taken.
#[verifier::external_body]
fn written(writer: xml::writer::EventWriter<Vec<u8>>) -> (bytes: Vec<u8>)
    ensures
        writer_held(writer) matches Some(state) ==> bytes@ == xml_bytes(
            state.events,
            state.perform_indent,
            state.normalize_empty_elements,
            state.autopad_comments,
        ),
{
    writer.into_inner()
}

/// `String::from_utf8`: the text that the bytes encode, where they are UTF-8.
#[verifier::external_body]
fn text_of(bytes: Vec<u8>) -> (text: Result<String, std::string::FromUtf8Error>)
    ensures
        text is Ok <==> vstd::utf8::valid_utf8(bytes@),
        text matches Ok(t) ==> t@ == vstd::utf8::decode_utf8(bytes@),
{
    String::from_utf8(bytes)
}

/// What a re-indentation hands back once the events are written: the text of the bytes,
/// or the failure to decode them.
pub fn decoded(bytes: Vec<u8>) -> (text: Result<String, SerializationFailure>)
    ensures
        match text {
            Ok(t) => vstd::utf8::valid_utf8(bytes@) && t@ == vstd::utf8::decode_utf8(bytes@),
            Err(e) => !vstd::utf8::valid_utf8(bytes@) && e is Encoding,
        },
{
    match text_of(bytes) {
        Ok(t) => Ok(t),
        Err(error) => Err(SerializationFailure::Encoding(error)),
    }
}

/// Re-indents XML text. The text is read with surrounding white space trimmed and comments
/// kept; every event but the end of the document is written again, indented, with empty
/// elements and comments left as they are; the bytes written are handed back as text.
/// Text that the reader refuses is malformed. The reader of the `xml` crate may panic; the
/// call then unwinds.
pub fn format_xml(src: &[u8]) -> (text: Result<String, SerializationFailure>)
    ensures
        reindented(src@, text),
        text matches Err(SerializationFailure::Malformed(_)) <==> !xml_readable(src@, true, false),
{
    let events = match read_events(src, true, false) {
        Ok(events) => events,
        Err(error) => {
            return Err(SerializationFailure::Malformed(error));
        },
    };
    let ghost held = held_events(events@);
    let mut writer = new_writer(true, false, false);
    let mut i: usize = 0;
    while i < events.len()
        invariant
            i <= events.len(),
            held == held_events(events@),
            xml_events(src@, true, false) == Some(held),
            takes(held, i as nat, true, false, false),
            writer_held(writer) == Some(
                WriterState {
                    perform_indent: true,
                    normalize_empty_elements: false,
                    autopad_comments: false,
                    events: given(held, i as nat),
                },
            ),
        decreases events.len() - i,
    {
        match as_writer_event(&events[i]) {
            Some(event) => {
                match write_event(&mut writer, event) {
                    Ok(()) => {},
                    Err(error) => {
                        proof {
                            assert(!takes(held, (i + 1) as nat, true, false, false));
                            lemma_refusal_stays(held, (i + 1) as nat, held.len(), true, false, false);
                        }
                        return Err(SerializationFailure::Unwritable(error));
                    },
                }
            },
            None => {},
        }
        i += 1;
    }
    decoded(written(writer))
}

} // verus!
