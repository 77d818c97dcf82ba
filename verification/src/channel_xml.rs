//! Writing a feed document as RSS text, through the channel type of the `rss` crate.
//!
//! A channel is filled step by step, and each step says what the channel then holds. The
//! text of a channel is what the crate writes for what the channel holds.

use vstd::prelude::*;
use rss::extension::itunes::{
    ITunesCategory, ITunesChannelExtension, ITunesItemExtensionBuilder, ITunesOwner,
};
use crate::feed::{
    ChannelExtension, ChannelExtensionView, ChannelHeader, ChannelHeaderView, EnclosureView,
    FeedDocument, FeedDocumentView, FeedImageView, FeedItem, FeedItemView, GuidView,
    ItunesOwnerView, NamespaceView,
};
use crate::text::views;

verus! {

/// `rss::Channel`, a feed as the `rss` crate holds it. What it holds is known by
/// [`channel_held`] alone.
#[verifier::external_type_specification]
#[verifier::external_body]
pub struct ExChannel(rss::Channel);

/// What podcast directories read of an entry, as a channel holds it: `explicit` is the
/// word that the feed carries.
pub struct HeldItemBlock {
    pub author: Seq<char>,
    pub image: Seq<char>,
    pub duration: Seq<char>,
    pub explicit: Seq<char>,
    pub summary: Seq<char>,
    pub subtitle: Seq<char>,
    pub keywords: Seq<char>,
}

/// An entry as a channel holds it.
pub struct HeldItem {
    pub title: Seq<char>,
    pub description: Seq<char>,
    pub author: Seq<char>,
    pub pub_date: Seq<char>,
    pub link: Seq<char>,
    pub enclosure: EnclosureView,
    pub guid: GuidView,
    pub itunes: HeldItemBlock,
}

/// What podcast directories read of a feed, as a channel holds it: `explicit` is the word
/// that the feed carries.
pub struct HeldChannelBlock {
    pub author: Seq<char>,
    pub category: Seq<char>,
    pub image: Seq<char>,
    pub explicit: Seq<char>,
    pub owner: ItunesOwnerView,
    pub subtitle: Seq<char>,
    pub summary: Seq<char>,
    pub keywords: Seq<char>,
}

/// What a channel holds: its texts, its image, its namespaces by prefix, what podcast
/// directories read of it, if it has that, and its entries in their order.
pub struct HeldChannel {
    pub title: Seq<char>,
    pub link: Seq<char>,
    pub description: Seq<char>,
    pub language: Seq<char>,
    pub copyright: Seq<char>,
    pub managing_editor: Seq<char>,
    pub webmaster: Seq<char>,
    pub pub_date: Seq<char>,
    pub last_build_date: Seq<char>,
    pub generator: Seq<char>,
    pub image: FeedImageView,
    pub namespaces: Map<Seq<char>, Seq<char>>,
    pub itunes: Option<HeldChannelBlock>,
    pub items: Seq<HeldItem>,
}

/// What a channel holds, where it holds nothing else. It is `Some` for a channel that has
/// its texts and its image set, a directory block or none, and entries, where the block
/// and each entry hold the texts that [`HeldChannelBlock`] and [`HeldItem`] name, the
/// block with one category and an owner with name and address, and where every other
/// field is as the crate's default leaves it. It is `None` for any other channel.
pub uninterp spec fn channel_held(channel: rss::Channel) -> Option<HeldChannel>;

/// The text that `rss::Channel::to_string` gives for a channel that holds `held`.
pub uninterp spec fn rss_document(held: HeldChannel) -> Seq<char>;

/// An `rss::Channel` with the texts of `header`, each in the field of its name, and an
/// `rss::Image` with what `header` holds of its image. The channel has no namespace, no
/// directory block and no entry, and every other field is as the crate's default leaves
/// it.
#[verifier::external_body]
fn new_channel(header: ChannelHeader) -> (channel: rss::Channel)
    ensures
        channel_held(channel) == Some(
            HeldChannel {
                title: header.title@,
                link: header.link@,
                description: header.description@,
                language: header.language@,
                copyright: header.copyright@,
                managing_editor: header.managing_editor@,
                webmaster: header.webmaster@,
                pub_date: header.pub_date@,
                last_build_date: header.last_build_date@,
                generator: header.generator@,
                image: header.image@,
                namespaces: Map::empty(),
                itunes: None,
                items: Seq::empty(),
            },
        ),
{
    let image = header.image;
    rss::Channel {
        title: header.title, link: header.link, description: header.description,
        language: Some(header.language), copyright: Some(header.copyright),
        managing_editor: Some(header.managing_editor), webmaster: Some(header.webmaster),
        pub_date: Some(header.pub_date), last_build_date: Some(header.last_build_date),
        generator: Some(header.generator),
        image: Some(rss::Image { url: image.url, title: image.title, link: image.link, ..Default::default() }),
        ..Default::default()
    }
}

/// `BTreeMap::insert` on the namespaces of the channel, an `rss::Channel`: the prefix is
/// bound to the address, in place of what it was bound to before.
#[verifier::external_body]
fn bind_namespace(channel: &mut rss::Channel, prefix: String, uri: String)
    ensures
        channel_held(*old(channel)) matches Some(held) ==> channel_held(*final(channel)) == Some(
            HeldChannel { namespaces: held.namespaces.insert(prefix@, uri@), ..held },
        ),
{
    channel.namespaces.insert(prefix, uri);
}

/// Sets the directory block of the channel, an `rss::Channel`: an
/// `rss::extension::itunes::ITunesChannelExtension` with the texts of `itunes`, each in
/// the field of its name, one `ITunesCategory` with the category as its text, an
/// `ITunesOwner` with the name and the address of the owner, and `explicit`; every other
/// field of the block is as the crate's default leaves it.
#[verifier::external_body]
fn set_directory_block(channel: &mut rss::Channel, itunes: ChannelExtension, explicit: String)
    ensures
        channel_held(*old(channel)) matches Some(held) ==> channel_held(*final(channel)) == Some(
            HeldChannel {
                itunes: Some(
                    HeldChannelBlock {
                        author: itunes.author@,
                        category: itunes.category@,
                        image: itunes.image@,
                        explicit: explicit@,
                        owner: itunes.owner@,
                        subtitle: itunes.subtitle@,
                        summary: itunes.summary@,
                        keywords: itunes.keywords@,
                    },
                ),
                ..held
            },
        ),
{
    channel.itunes_ext = Some(ITunesChannelExtension {
        author: Some(itunes.author),
        categories: vec![ITunesCategory { text: itunes.category, subcategory: None }],
        image: Some(itunes.image),
        explicit: Some(explicit),
        owner: Some(ITunesOwner { name: Some(itunes.owner.name), email: Some(itunes.owner.email) }),
        subtitle: Some(itunes.subtitle),
        summary: Some(itunes.summary),
        keywords: Some(itunes.keywords),
        ..Default::default()
    });
}

/// Appends an entry to the entries of the channel, an `rss::Channel`: an `rss::Item`
/// built by `rss::ItemBuilder` with the texts of `item`, each in the field of its name, an
/// `rss::Enclosure` and an `rss::Guid` with what `item` holds of them, and a directory
/// block built by `ITunesItemExtensionBuilder` with the texts of `item.itunes` and
/// `explicit`; every other field of the entry is as the crate's default leaves it.
#[verifier::external_body]
fn push_item(channel: &mut rss::Channel, item: FeedItem, explicit: String)
    ensures
        channel_held(*old(channel)) matches Some(held) ==> channel_held(*final(channel)) == Some(
            HeldChannel {
                items: held.items.push(
                    HeldItem {
                        title: item.title@,
                        description: item.description@,
                        author: item.author@,
                        pub_date: item.pub_date@,
                        link: item.link@,
                        enclosure: item.enclosure@,
                        guid: item.guid@,
                        itunes: HeldItemBlock {
                            author: item.itunes.author@,
                            image: item.itunes.image@,
                            duration: item.itunes.duration@,
                            explicit: explicit@,
                            summary: item.itunes.summary@,
                            subtitle: item.itunes.subtitle@,
                            keywords: item.itunes.keywords@,
                        },
                    },
                ),
                ..held
            },
        ),
{
    let itunes = item.itunes;
    channel.items.push(rss::ItemBuilder::default()
        .title(item.title).link(item.link).description(item.description)
        .author(item.author).pub_date(item.pub_date)
        .enclosure(rss::Enclosure { url: item.enclosure.url, mime_type: item.enclosure.mime_type, ..Default::default() })
        .guid(rss::Guid { value: item.guid.value, permalink: item.guid.permalink })
        .itunes_ext(ITunesItemExtensionBuilder::default()
            .author(itunes.author).image(itunes.image).duration(itunes.duration)
            .explicit(explicit).subtitle(itunes.subtitle).summary(itunes.summary)
            .keywords(itunes.keywords).build())
        .build());
}

/// `rss::Channel::to_string`: the channel as the text of an RSS document. The text of a
/// channel that holds nothing but what [`channel_held`] names depends on that alone.
#[verifier::external_body]
fn rss_text(channel: &rss::Channel) -> (text: String)
    ensures
        channel_held(*channel) matches Some(held) ==> text@ == rss_document(held),
{
    channel.to_string()
}

/// How a feed says whether a show is explicit.
pub open spec fn explicit_label_of(explicit: bool) -> Seq<char> {
    if explicit {
        "Explicit"@
    } else {
        "Clean"@
    }
}

/// The word by which a feed says whether a show is explicit.
pub fn explicit_label(explicit: bool) -> (label: String)
    ensures
        label@ == explicit_label_of(explicit),
{
    if explicit {
        "Explicit".to_string()
    } else {
        "Clean".to_string()
    }
}

/// The namespaces of a header by prefix: of two with one prefix, the later stands.
pub open spec fn namespace_map(namespaces: Seq<NamespaceView>) -> Map<Seq<char>, Seq<char>>
    decreases namespaces.len(),
{
    if namespaces.len() == 0 {
        Map::empty()
    } else {
        namespace_map(namespaces.drop_last()).insert(
            namespaces.last().prefix,
            namespaces.last().uri,
        )
    }
}

/// What a channel holds of the directory block of a header.
pub open spec fn held_block(itunes: ChannelExtensionView) -> HeldChannelBlock {
    HeldChannelBlock {
        author: itunes.author,
        category: itunes.category,
        image: itunes.image,
        explicit: explicit_label_of(itunes.explicit),
        owner: itunes.owner,
        subtitle: itunes.subtitle,
        summary: itunes.summary,
        keywords: itunes.keywords,
    }
}

/// What a channel holds of an entry.
pub open spec fn held_item(item: FeedItemView) -> HeldItem {
    HeldItem {
        title: item.title,
        description: item.description,
        author: item.author,
        pub_date: item.pub_date,
        link: item.link,
        enclosure: item.enclosure,
        guid: item.guid,
        itunes: HeldItemBlock {
            author: item.itunes.author,
            image: item.itunes.image,
            duration: item.itunes.duration,
            explicit: explicit_label_of(item.itunes.explicit),
            summary: item.itunes.summary,
            subtitle: item.itunes.subtitle,
            keywords: item.itunes.keywords,
        },
    }
}

/// What a channel holds of a header before it has entries.
pub open spec fn held_header(header: ChannelHeaderView) -> HeldChannel {
    HeldChannel {
        title: header.title,
        link: header.link,
        description: header.description,
        language: header.language,
        copyright: header.copyright,
        managing_editor: header.managing_editor,
        webmaster: header.webmaster,
        pub_date: header.pub_date,
        last_build_date: header.last_build_date,
        generator: header.generator,
        image: header.image,
        namespaces: namespace_map(header.namespaces),
        itunes: Some(held_block(header.itunes)),
        items: Seq::empty(),
    }
}

/// What the channel of a document holds: the header, with its namespaces by prefix and
/// the word for its explicit flag, and the entries in their order, each with the word for
/// its flag.
pub open spec fn held_document(document: FeedDocumentView) -> HeldChannel {
    HeldChannel {
        items: Seq::new(document.items.len(), |i: int| held_item(document.items[i])),
        ..held_header(document.header)
    }
}

/// The text of a document as an RSS document, before it is indented.
pub open spec fn serialized(document: FeedDocumentView) -> Seq<char> {
    rss_document(held_document(document))
}

/// The document as the `rss` crate holds it: a channel that holds the header and the
/// entries of the document, and nothing else.
fn to_rss_channel(document: &FeedDocument) -> (channel: rss::Channel)
    ensures
        channel_held(channel) == Some(held_document(document@)),
{
    let header = &document.header;
    let mut channel = new_channel(header.clone());
    let mut k: usize = 0;
    while k < header.namespaces.len()
        invariant
            k <= header.namespaces.len(),
            channel_held(channel) == Some(
                HeldChannel {
                    namespaces: namespace_map(views(header.namespaces@).take(k as int)),
                    itunes: None,
                    ..held_header(header@)
                },
            ),
        decreases header.namespaces.len() - k,
    {
        let namespace = &header.namespaces[k];
        proof {
            let bound = views(header.namespaces@).take(k + 1);
            assert(bound.drop_last() =~= views(header.namespaces@).take(k as int));
            assert(bound.last() == namespace@);
        }
        bind_namespace(&mut channel, namespace.prefix.clone(), namespace.uri.clone());
        k += 1;
    }
    assert(views(header.namespaces@).take(k as int) =~= header@.namespaces);
    set_directory_block(
        &mut channel,
        header.itunes.clone(),
        explicit_label(header.itunes.explicit),
    );
    let mut i: usize = 0;
    assert(held_document(document@).items.take(0) =~= Seq::<HeldItem>::empty());
    while i < document.items.len()
        invariant
            i <= document.items.len(),
            header@ == document@.header,
            channel_held(channel) == Some(
                HeldChannel {
                    items: held_document(document@).items.take(i as int),
                    ..held_header(header@)
                },
            ),
        decreases document.items.len() - i,
    {
        let item = &document.items[i];
        let ghost before = held_document(document@).items.take(i as int);
        push_item(&mut channel, item.clone(), explicit_label(item.itunes.explicit));
        assert(before.push(held_item(item@)) =~= held_document(document@).items.take(i + 1));
        i += 1;
    }
    assert(held_document(document@).items.take(i as int) =~= held_document(document@).items);
    channel
}

/// Writes a document as the text of an RSS document, unindented, with the namespaces of
/// its header declared on the root element: the text that the `rss` crate gives for a
/// channel that holds the header and the entries of the document.
pub fn serialize(document: &FeedDocument) -> (text: String)
    ensures
        text@ == serialized(document@),
{
    let channel = to_rss_channel(document);
    rss_text(&channel)
}

} // verus!
