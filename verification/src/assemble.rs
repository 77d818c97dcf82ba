//! Building the entries and the header of a feed from the description of a show.

use vstd::prelude::*;
use crate::feed::{
    ChannelExtension, ChannelExtensionView, ChannelHeader, ChannelHeaderView, Enclosure,
    EnclosureView, FeedImage, FeedImageView, FeedItem, FeedItemView, Guid, GuidView,
    ItemExtension, ItemExtensionView, ItunesOwner, ItunesOwnerView, Namespace, NamespaceView,
};
use crate::mime::{mime_type_of, resolve};
use crate::route::{Accepted, AcceptedView};
use crate::show::{Episode, EpisodeView, Podcast, PodcastView};
use crate::text::{followed, join, joined, views};

verus! {

/// The entry of an episode for one accepted file: the data of the episode, the media type
/// of the file's format, and the hosted address as link, enclosure and permanent
/// identifier.
pub open spec fn item_of(
    show: PodcastView,
    episode: EpisodeView,
    accepted: AcceptedView,
) -> FeedItemView {
    FeedItemView {
        title: episode.title,
        description: episode.description,
        author: show.author_email,
        pub_date: episode.publish_date,
        link: accepted.url,
        enclosure: EnclosureView {
            url: accepted.url,
            mime_type: mime_type_of(accepted.format),
        },
        guid: GuidView { value: accepted.url, permalink: true },
        itunes: ItemExtensionView {
            author: show.author,
            image: show.logo.url,
            duration: episode.duration,
            explicit: show.explicit,
            summary: episode.description,
            subtitle: episode.subtitle,
            keywords: joined(episode.keywords, ", "@),
        },
    }
}

/// The namespaces that every document binds, ordered by prefix.
pub open spec fn feed_namespaces() -> Seq<NamespaceView> {
    seq![
        NamespaceView { prefix: "atom"@, uri: "http://www.w3.org/2005/Atom"@ },
        NamespaceView { prefix: "itunes"@, uri: "http://www.itunes.com/dtds/podcast-1.0.dtd"@ },
        NamespaceView { prefix: "itunesu"@, uri: "http://www.itunesu.com/feed"@ },
    ]
}

/// The header of a show. The two dates stay empty: the time of publication is not known
/// here.
pub open spec fn header_of(show: PodcastView) -> ChannelHeaderView {
    ChannelHeaderView {
        title: show.title,
        link: show.website,
        description: show.description,
        language: show.language,
        copyright: show.copyright,
        managing_editor: show.managing_editor,
        webmaster: show.webmaster,
        pub_date: Seq::empty(),
        last_build_date: Seq::empty(),
        generator: "pfg-rs"@,
        image: FeedImageView {
            url: show.logo.url,
            title: show.title + " Logo"@,
            link: show.website,
        },
        itunes: ChannelExtensionView {
            author: show.author,
            category: show.category,
            image: show.logo.url,
            explicit: show.explicit,
            owner: ItunesOwnerView { name: show.author, email: show.author_email },
            subtitle: show.subtitle,
            summary: show.description,
            keywords: joined(show.keywords, ", "@),
        },
        namespaces: feed_namespaces(),
    }
}

/// Builds the entry of `episode` for one of its accepted files.
pub fn assemble_item(episode: &Episode, accepted: &Accepted, show: &Podcast) -> (item: FeedItem)
    ensures
        item@ == item_of(show@, episode@, accepted@),
{
    FeedItem {
        title: episode.title.clone(),
        description: episode.description.clone(),
        author: show.author_email.clone(),
        pub_date: episode.publish_date.clone(),
        link: accepted.url.clone(),
        enclosure: Enclosure {
            url: accepted.url.clone(),
            mime_type: resolve(accepted.format.as_str()),
        },
        guid: Guid { value: accepted.url.clone(), permalink: true },
        itunes: ItemExtension {
            author: show.author.clone(),
            image: show.logo.url.clone(),
            duration: episode.duration.clone(),
            explicit: show.explicit,
            summary: episode.description.clone(),
            subtitle: episode.subtitle.clone(),
            keywords: join(&episode.keywords, ", "),
        },
    }
}

/// Builds the header that every document of `show` carries.
pub fn assemble_header(show: &Podcast) -> (header: ChannelHeader)
    ensures
        header@ == header_of(show@),
{
    let mut namespaces: Vec<Namespace> = Vec::new();
    namespaces.push(
        Namespace { prefix: "atom".to_string(), uri: "http://www.w3.org/2005/Atom".to_string() },
    );
    namespaces.push(
        Namespace {
            prefix: "itunes".to_string(),
            uri: "http://www.itunes.com/dtds/podcast-1.0.dtd".to_string(),
        },
    );
    namespaces.push(
        Namespace { prefix: "itunesu".to_string(), uri: "http://www.itunesu.com/feed".to_string() },
    );
    assert(views(namespaces@) =~= feed_namespaces());
    ChannelHeader {
        title: show.title.clone(),
        link: show.website.clone(),
        description: show.description.clone(),
        language: show.language.clone(),
        copyright: show.copyright.clone(),
        managing_editor: show.managing_editor.clone(),
        webmaster: show.webmaster.clone(),
        pub_date: String::new(),
        last_build_date: String::new(),
        generator: "pfg-rs".to_string(),
        image: FeedImage {
            url: show.logo.url.clone(),
            title: followed(show.title.as_str(), " Logo"),
            link: show.website.clone(),
        },
        itunes: ChannelExtension {
            author: show.author.clone(),
            category: show.category.clone(),
            image: show.logo.url.clone(),
            explicit: show.explicit,
            owner: ItunesOwner { name: show.author.clone(), email: show.author_email.clone() },
            subtitle: show.subtitle.clone(),
            summary: show.description.clone(),
            keywords: join(&show.keywords, ", "),
        },
        namespaces,
    }
}

} // verus!
