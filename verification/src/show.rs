//! The description of a show: its own data, its logo and its episodes.

use vstd::prelude::*;
use crate::text::views;

verus! {

/// The logo of a show.
pub struct Logo {
    pub url: String,
    pub title: String,
    pub link: String,
}

/// One episode, with the names of the audio files that carry it.
pub struct Episode {
    pub title: String,
    pub url: String,
    pub description: String,
    pub subtitle: String,
    pub files: Vec<String>,
    pub duration: String,
    pub publish_date: String,
    pub keywords: Vec<String>,
}

/// A show and its episodes, in the order in which they are published.
pub struct Podcast {
    pub title: String,
    pub description: String,
    pub subtitle: String,
    pub author: String,
    pub author_email: String,
    pub website: String,
    pub language: String,
    pub copyright: String,
    pub webmaster: String,
    pub managing_editor: String,
    pub formats: Vec<String>,
    pub hosting_base_url: String,
    pub keywords: Vec<String>,
    pub explicit: bool,
    pub logo: Logo,
    pub category: String,
    pub episodes: Vec<Episode>,
}

/// What a [`Logo`] holds, as text.
pub struct LogoView {
    pub url: Seq<char>,
    pub title: Seq<char>,
    pub link: Seq<char>,
}

/// What an [`Episode`] holds, as text.
pub struct EpisodeView {
    pub title: Seq<char>,
    pub url: Seq<char>,
    pub description: Seq<char>,
    pub subtitle: Seq<char>,
    pub files: Seq<Seq<char>>,
    pub duration: Seq<char>,
    pub publish_date: Seq<char>,
    pub keywords: Seq<Seq<char>>,
}

/// What a [`Podcast`] holds, as text.
pub struct PodcastView {
    pub title: Seq<char>,
    pub description: Seq<char>,
    pub subtitle: Seq<char>,
    pub author: Seq<char>,
    pub author_email: Seq<char>,
    pub website: Seq<char>,
    pub language: Seq<char>,
    pub copyright: Seq<char>,
    pub webmaster: Seq<char>,
    pub managing_editor: Seq<char>,
    pub formats: Seq<Seq<char>>,
    pub hosting_base_url: Seq<char>,
    pub keywords: Seq<Seq<char>>,
    pub explicit: bool,
    pub logo: LogoView,
    pub category: Seq<char>,
    pub episodes: Seq<EpisodeView>,
}

impl View for Logo {
    type V = LogoView;

    open spec fn view(&self) -> LogoView {
        LogoView { url: self.url@, title: self.title@, link: self.link@ }
    }
}

impl View for Episode {
    type V = EpisodeView;

    open spec fn view(&self) -> EpisodeView {
        EpisodeView {
            title: self.title@,
            url: self.url@,
            description: self.description@,
            subtitle: self.subtitle@,
            files: views(self.files@),
            duration: self.duration@,
            publish_date: self.publish_date@,
            keywords: views(self.keywords@),
        }
    }
}

impl View for Podcast {
    type V = PodcastView;

    open spec fn view(&self) -> PodcastView {
        PodcastView {
            title: self.title@,
            description: self.description@,
            subtitle: self.subtitle@,
            author: self.author@,
            author_email: self.author_email@,
            website: self.website@,
            language: self.language@,
            copyright: self.copyright@,
            webmaster: self.webmaster@,
            managing_editor: self.managing_editor@,
            formats: views(self.formats@),
            hosting_base_url: self.hosting_base_url@,
            keywords: views(self.keywords@),
            explicit: self.explicit,
            logo: self.logo@,
            category: self.category@,
            episodes: views(self.episodes@),
        }
    }
}

impl PodcastView {
    /// The formats that the show declares, as a set.
    pub open spec fn declared(self) -> Set<Seq<char>> {
        self.formats.to_set()
    }
}

} // verus!
