//! Podcast feeds from one description of a show.
//!
//! A show declares the audio formats in which it is published, and each of its episodes
//! names the files that carry it. From this description the crate builds one feed document
//! for each declared format that at least one episode supplies, and reports every file that
//! gives no entry: a file without a format, a file of a format that the show does not
//! declare, and a second file of a format within one episode.
//!
//! - [`show`] holds the description of a show.
//! - [`mime`] resolves a format to its media type.
//! - [`route`] decides, file by file, what an episode gives to which format.
//! - [`assemble`] builds the entries and the header of a feed.
//! - [`generate`] gathers the entries by format into documents.
//! - [`channel_xml`], [`pretty`] and [`render`] write a document as indented XML text.
//!
//! The contracts speak of texts as sequences of characters: each type has a view that
//! holds its data in that form, and each function is stated over these views.

pub mod assemble;
pub mod channel_xml;
pub mod feed;
pub mod generate;
pub mod mime;
pub mod pretty;
pub mod render;
pub mod route;
pub mod show;
pub mod text;

pub use generate::generate_xmls;
pub use pretty::format_xml;
pub use render::{generate_feeds, render, render_all};
