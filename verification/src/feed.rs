//! Feed documents: the header that all documents of a show share, and the entries of one
//! format.

use vstd::prelude::*;
use crate::text::views;

verus! {

/// The media file that an entry points to.
#[derive(Debug, PartialEq, Eq)]
pub struct Enclosure {
    pub url: String,
    pub mime_type: String,
}

/// The identifier of an entry.
#[derive(Debug, PartialEq, Eq)]
pub struct Guid {
    pub value: String,
    pub permalink: bool,
}

/// What podcast directories read of an entry.
#[derive(Debug, PartialEq, Eq)]
pub struct ItemExtension {
    pub author: String,
    pub image: String,
    pub duration: String,
    pub explicit: bool,
    pub summary: String,
    pub subtitle: String,
    pub keywords: String,
}

/// One entry of a feed: one episode in one format.
#[derive(Debug, PartialEq, Eq)]
pub struct FeedItem {
    pub title: String,
    pub description: String,
    pub author: String,
    pub pub_date: String,
    pub link: String,
    pub enclosure: Enclosure,
    pub guid: Guid,
    pub itunes: ItemExtension,
}

/// The logo of a feed.
#[derive(Debug, PartialEq, Eq)]
pub struct FeedImage {
    pub url: String,
    pub title: String,
    pub link: String,
}

/// The owner of a show, as podcast directories know them.
#[derive(Debug, PartialEq, Eq)]
pub struct ItunesOwner {
    pub name: String,
    pub email: String,
}

/// What podcast directories read of a show.
#[derive(Debug, PartialEq, Eq)]
pub struct ChannelExtension {
    pub author: String,
    pub category: String,
    pub image: String,
    pub explicit: bool,
    pub owner: ItunesOwner,
    pub subtitle: String,
    pub summary: String,
    pub keywords: String,
}

/// An XML namespace that a document binds to a prefix.
#[derive(Debug, PartialEq, Eq)]
pub struct Namespace {
    pub prefix: String,
    pub uri: String,
}

/// What every document of a show carries, whatever its format.
#[derive(Debug, PartialEq, Eq)]
pub struct ChannelHeader {
    pub title: String,
    pub link: String,
    pub description: String,
    pub language: String,
    pub copyright: String,
    pub managing_editor: String,
    pub webmaster: String,
    pub pub_date: String,
    pub last_build_date: String,
    pub generator: String,
    pub image: FeedImage,
    pub itunes: ChannelExtension,
    pub namespaces: Vec<Namespace>,
}

/// The feed of one format: the header of the show and the entries of that format.
#[derive(Debug, PartialEq, Eq)]
pub struct FeedDocument {
    pub format: String,
    pub header: ChannelHeader,
    pub items: Vec<FeedItem>,
}

/// What an [`Enclosure`] holds, as text.
pub struct EnclosureView {
    pub url: Seq<char>,
    pub mime_type: Seq<char>,
}

/// What a [`Guid`] holds, as text.
pub struct GuidView {
    pub value: Seq<char>,
    pub permalink: bool,
}

/// What an [`ItemExtension`] holds, as text.
pub struct ItemExtensionView {
    pub author: Seq<char>,
    pub image: Seq<char>,
    pub duration: Seq<char>,
    pub explicit: bool,
    pub summary: Seq<char>,
    pub subtitle: Seq<char>,
    pub keywords: Seq<char>,
}

/// What a [`FeedItem`] holds, as text.
pub struct FeedItemView {
    pub title: Seq<char>,
    pub description: Seq<char>,
    pub author: Seq<char>,
    pub pub_date: Seq<char>,
    pub link: Seq<char>,
    pub enclosure: EnclosureView,
    pub guid: GuidView,
    pub itunes: ItemExtensionView,
}

/// What a [`FeedImage`] holds, as text.
pub struct FeedImageView {
    pub url: Seq<char>,
    pub title: Seq<char>,
    pub link: Seq<char>,
}

/// What an [`ItunesOwner`] holds, as text.
pub struct ItunesOwnerView {
    pub name: Seq<char>,
    pub email: Seq<char>,
}

/// What a [`ChannelExtension`] holds, as text.
pub struct ChannelExtensionView {
    pub author: Seq<char>,
    pub category: Seq<char>,
    pub image: Seq<char>,
    pub explicit: bool,
    pub owner: ItunesOwnerView,
    pub subtitle: Seq<char>,
    pub summary: Seq<char>,
    pub keywords: Seq<char>,
}

/// What a [`Namespace`] holds, as text.
pub struct NamespaceView {
    pub prefix: Seq<char>,
    pub uri: Seq<char>,
}

/// What a [`ChannelHeader`] holds, as text.
pub struct ChannelHeaderView {
    pub title: Seq<char>,
    pub link: Seq<char>,
    pub description: Seq<char>,
    pub language: Seq<char>,
    pub copyright: Seq<char>,
    pub managing_editor: Seq<char>,
    pub webmaster: Seq<char>,
    pub pub_date: Seq<char>,
    pub last_build_date: Seq<char>,
    pub generator: Seq<char>,
    pub image: FeedImageView,
    pub itunes: ChannelExtensionView,
    pub namespaces: Seq<NamespaceView>,
}

/// What a [`FeedDocument`] holds, as text.
pub struct FeedDocumentView {
    pub format: Seq<char>,
    pub header: ChannelHeaderView,
    pub items: Seq<FeedItemView>,
}

impl View for Enclosure {
    type V = EnclosureView;

    open spec fn view(&self) -> EnclosureView {
        EnclosureView { url: self.url@, mime_type: self.mime_type@ }
    }
}

impl View for Guid {
    type V = GuidView;

    open spec fn view(&self) -> GuidView {
        GuidView { value: self.value@, permalink: self.permalink }
    }
}

impl View for ItemExtension {
    type V = ItemExtensionView;

    open spec fn view(&self) -> ItemExtensionView {
        ItemExtensionView {
            author: self.author@,
            image: self.image@,
            duration: self.duration@,
            explicit: self.explicit,
            summary: self.summary@,
            subtitle: self.subtitle@,
            keywords: self.keywords@,
        }
    }
}

impl View for FeedItem {
    type V = FeedItemView;

    open spec fn view(&self) -> FeedItemView {
        FeedItemView {
            title: self.title@,
            description: self.description@,
            author: self.author@,
            pub_date: self.pub_date@,
            link: self.link@,
            enclosure: self.enclosure@,
            guid: self.guid@,
            itunes: self.itunes@,
        }
    }
}

impl View for FeedImage {
    type V = FeedImageView;

    open spec fn view(&self) -> FeedImageView {
        FeedImageView { url: self.url@, title: self.title@, link: self.link@ }
    }
}

impl View for ItunesOwner {
    type V = ItunesOwnerView;

    open spec fn view(&self) -> ItunesOwnerView {
        ItunesOwnerView { name: self.name@, email: self.email@ }
    }
}

impl View for ChannelExtension {
    type V = ChannelExtensionView;

    open spec fn view(&self) -> ChannelExtensionView {
        ChannelExtensionView {
            author: self.author@,
            category: self.category@,
            image: self.image@,
            explicit: self.explicit,
            owner: self.owner@,
            subtitle: self.subtitle@,
            summary: self.summary@,
            keywords: self.keywords@,
        }
    }
}

impl View for Namespace {
    type V = NamespaceView;

    open spec fn view(&self) -> NamespaceView {
        NamespaceView { prefix: self.prefix@, uri: self.uri@ }
    }
}

impl View for ChannelHeader {
    type V = ChannelHeaderView;

    open spec fn view(&self) -> ChannelHeaderView {
        ChannelHeaderView {
            title: self.title@,
            link: self.link@,
            description: self.description@,
            language: self.language@,
            copyright: self.copyright@,
            managing_editor: self.managing_editor@,
            webmaster: self.webmaster@,
            pub_date: self.pub_date@,
            last_build_date: self.last_build_date@,
            generator: self.generator@,
            image: self.image@,
            itunes: self.itunes@,
            namespaces: views(self.namespaces@),
        }
    }
}

impl View for FeedDocument {
    type V = FeedDocumentView;

    open spec fn view(&self) -> FeedDocumentView {
        FeedDocumentView {
            format: self.format@,
            header: self.header@,
            items: views(self.items@),
        }
    }
}

impl Clone for Enclosure {
    fn clone(&self) -> (copy: Self)
        ensures
            copy == *self,
    {
        Enclosure { url: self.url.clone(), mime_type: self.mime_type.clone() }
    }
}

impl Clone for Guid {
    fn clone(&self) -> (copy: Self)
        ensures
            copy == *self,
    {
        Guid { value: self.value.clone(), permalink: self.permalink }
    }
}

impl Clone for ItemExtension {
    fn clone(&self) -> (copy: Self)
        ensures
            copy == *self,
    {
        ItemExtension {
            author: self.author.clone(),
            image: self.image.clone(),
            duration: self.duration.clone(),
            explicit: self.explicit,
            summary: self.summary.clone(),
            subtitle: self.subtitle.clone(),
            keywords: self.keywords.clone(),
        }
    }
}

impl Clone for FeedItem {
    fn clone(&self) -> (copy: Self)
        ensures
            copy == *self,
    {
        FeedItem {
            title: self.title.clone(),
            description: self.description.clone(),
            author: self.author.clone(),
            pub_date: self.pub_date.clone(),
            link: self.link.clone(),
            enclosure: self.enclosure.clone(),
            guid: self.guid.clone(),
            itunes: self.itunes.clone(),
        }
    }
}

impl Clone for FeedImage {
    fn clone(&self) -> (copy: Self)
        ensures
            copy == *self,
    {
        FeedImage { url: self.url.clone(), title: self.title.clone(), link: self.link.clone() }
    }
}

impl Clone for ItunesOwner {
    fn clone(&self) -> (copy: Self)
        ensures
            copy == *self,
    {
        ItunesOwner { name: self.name.clone(), email: self.email.clone() }
    }
}

impl Clone for ChannelExtension {
    fn clone(&self) -> (copy: Self)
        ensures
            copy == *self,
    {
        ChannelExtension {
            author: self.author.clone(),
            category: self.category.clone(),
            image: self.image.clone(),
            explicit: self.explicit,
            owner: self.owner.clone(),
            subtitle: self.subtitle.clone(),
            summary: self.summary.clone(),
            keywords: self.keywords.clone(),
        }
    }
}

impl Clone for Namespace {
    fn clone(&self) -> (copy: Self)
        ensures
            copy == *self,
    {
        Namespace { prefix: self.prefix.clone(), uri: self.uri.clone() }
    }
}

impl Clone for ChannelHeader {
    fn clone(&self) -> (copy: Self)
        ensures
            copy@ == self@,
    {
        let mut namespaces: Vec<Namespace> = Vec::new();
        let mut i: usize = 0;
        while i < self.namespaces.len()
            invariant
                i <= self.namespaces.len(),
                namespaces.len() == i,
                forall|j: int| 0 <= j < i ==> namespaces@[j] == self.namespaces@[j],
            decreases self.namespaces.len() - i,
        {
            namespaces.push(self.namespaces[i].clone());
            i += 1;
        }
        assert(views(namespaces@) =~= views(self.namespaces@));
        ChannelHeader {
            title: self.title.clone(),
            link: self.link.clone(),
            description: self.description.clone(),
            language: self.language.clone(),
            copyright: self.copyright.clone(),
            managing_editor: self.managing_editor.clone(),
            webmaster: self.webmaster.clone(),
            pub_date: self.pub_date.clone(),
            last_build_date: self.last_build_date.clone(),
            generator: self.generator.clone(),
            image: self.image.clone(),
            itunes: self.itunes.clone(),
            namespaces,
        }
    }
}

} // verus!
