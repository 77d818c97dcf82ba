//! Rendering feed documents as indented XML text.

use vstd::prelude::*;
use crate::channel_xml::{serialize, serialized};
use crate::feed::{FeedDocument, FeedDocumentView};
use crate::generate::{generate_xmls, generated_of};
use crate::pretty::{format_xml, reindented, xml_readable, SerializationFailure};
use crate::route::Rejection;
use crate::show::Podcast;
use crate::text::views;

verus! {

/// The text of the document of one format, or why there is none.
#[derive(Debug)]
pub struct Rendered {
    pub format: String,
    pub text: Result<String, SerializationFailure>,
}

/// Whether `text` is what rendering `document` gives: what re-indenting the UTF-8 bytes
/// of its RSS text gives.
pub open spec fn rendering(
    document: FeedDocumentView,
    text: Result<String, SerializationFailure>,
) -> bool {
    reindented(vstd::utf8::encode_utf8(serialized(document)), text)
}

/// Whether the reader refuses the RSS text of `document`.
pub open spec fn malformed(document: FeedDocumentView) -> bool {
    !xml_readable(vstd::utf8::encode_utf8(serialized(document)), true, false)
}

/// Renders a document: writes it as RSS text, then re-indents that text, read as UTF-8
/// with surrounding white space trimmed and comments kept, and written with indentation,
/// with empty elements and comments left as they are. The document is malformed exactly
/// where the reader refuses its RSS text. The reader of the `xml` crate may panic; the
/// call then unwinds.
pub fn render(document: &FeedDocument) -> (text: Result<String, SerializationFailure>)
    ensures
        rendering(document@, text),
        text matches Err(SerializationFailure::Malformed(_)) <==> malformed(document@),
{
    let raw = serialize(document);
    format_xml(raw.as_str().as_bytes())
}

/// Renders each document under its format, in the order of the documents. A document
/// that cannot be rendered has its failure in place of a text and stops no other. The
/// reader of the `xml` crate may panic; the call then unwinds.
pub fn render_all(documents: &Vec<FeedDocument>) -> (rendered: Vec<Rendered>)
    ensures
        rendered.len() == documents.len(),
        forall|i: int|
            0 <= i < rendered.len() ==> {
                let one = #[trigger] rendered[i];
                &&& one.format@ == documents[i].format@
                &&& rendering(documents[i]@, one.text)
                &&& (one.text matches Err(SerializationFailure::Malformed(_))) == malformed(
                    documents[i]@,
                )
            },
{
    let mut rendered: Vec<Rendered> = Vec::new();
    let mut i: usize = 0;
    while i < documents.len()
        invariant
            i <= documents.len(),
            rendered.len() == i,
            forall|j: int|
                0 <= j < i ==> {
                    let one = #[trigger] rendered[j];
                    &&& one.format@ == documents[j].format@
                    &&& rendering(documents[j]@, one.text)
                    &&& (one.text matches Err(SerializationFailure::Malformed(_))) == malformed(
                        documents[j]@,
                    )
                },
        decreases documents.len() - i,
    {
        rendered.push(
            Rendered { format: documents[i].format.clone(), text: render(&documents[i]) },
        );
        i += 1;
    }
    rendered
}

/// The feeds of a show: the text of each document under its format, and the files that
/// were passed over.
#[derive(Debug)]
pub struct Feeds {
    pub rendered: Vec<Rendered>,
    pub rejections: Vec<Rejection>,
}

/// Builds the documents of a show and renders each of them. There is one text, or one
/// failure, for each document of the show, under the format of the document and in the
/// order of the documents: what rendering that document gives. The files passed over are
/// those that building the documents reports. The reader of the `xml` crate may panic;
/// the call then unwinds.
pub fn generate_feeds(show: &Podcast) -> (feeds: Feeds)
    ensures
        feeds.rendered.len() == generated_of(show@).documents.len(),
        forall|i: int|
            0 <= i < feeds.rendered.len() ==> {
                let one = #[trigger] feeds.rendered[i];
                let document = generated_of(show@).documents[i];
                &&& one.format@ == document.format
                &&& rendering(document, one.text)
                &&& (one.text matches Err(SerializationFailure::Malformed(_))) == malformed(
                    document,
                )
            },
        views(feeds.rejections@) == generated_of(show@).rejections,
{
    let generated = generate_xmls(show);
    let rendered = render_all(&generated.documents);
    proof {
        assert forall|i: int| 0 <= i < rendered.len() implies {
            let one = #[trigger] rendered[i];
            let document = generated_of(show@).documents[i];
            &&& one.format@ == document.format
            &&& rendering(document, one.text)
            &&& (one.text matches Err(SerializationFailure::Malformed(_))) == malformed(document)
        } by {
            assert(generated@.documents[i] == generated.documents[i]@);
        }
    }
    Feeds { rendered, rejections: generated.rejections }
}

} // verus!
