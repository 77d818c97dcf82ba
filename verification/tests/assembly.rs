use pfg_rs::assemble::{assemble_header, assemble_item};
use pfg_rs::feed::{
    ChannelExtension, ChannelHeader, Enclosure, FeedImage, FeedItem, Guid, ItemExtension,
    ItunesOwner, Namespace,
};
use pfg_rs::route::Accepted;
use pfg_rs::show::{Episode, Logo, Podcast};
use pfg_rs::text::{followed, holds, join, position};

fn strings(items: &[&str]) -> Vec<String> {
    items.iter().map(|s| s.to_string()).collect()
}

fn episode() -> Episode {
    Episode {
        title: "First".to_string(),
        url: "https://example.org/episodes/1".to_string(),
        description: "Where it begins".to_string(),
        subtitle: "A beginning".to_string(),
        files: strings(&["ep1.mp3"]),
        duration: "00:42:00".to_string(),
        publish_date: "Mon, 01 Jan 2024 08:00:00 GMT".to_string(),
        keywords: strings(&["pilot", "intro", "news"]),
    }
}

fn show(explicit: bool) -> Podcast {
    Podcast {
        title: "The Show".to_string(),
        description: "A show about shows".to_string(),
        subtitle: "Shows".to_string(),
        author: "Ann Author".to_string(),
        author_email: "ann@example.org".to_string(),
        website: "https://example.org".to_string(),
        language: "en-gb".to_string(),
        copyright: "2024 Ann Author".to_string(),
        webmaster: "web@example.org".to_string(),
        managing_editor: "editor@example.org".to_string(),
        formats: strings(&["mp3"]),
        hosting_base_url: "https://cdn.example.org/show".to_string(),
        keywords: strings(&["talk", "radio"]),
        explicit,
        logo: Logo {
            url: "https://example.org/logo.png".to_string(),
            title: "ignored".to_string(),
            link: "ignored".to_string(),
        },
        category: "Technology".to_string(),
        episodes: vec![episode()],
    }
}

#[test]
fn join_puts_the_separator_between_neighbours() {
    assert_eq!(join(&strings(&["a", "b", "c"]), ", "), "a, b, c");
    assert_eq!(join(&strings(&["only"]), ", "), "only");
    assert_eq!(join(&strings(&[]), ", "), "");
    assert_eq!(join(&strings(&["", ""]), "-"), "-");
}

#[test]
fn followed_appends() {
    assert_eq!(followed("The Show", " Logo"), "The Show Logo");
    assert_eq!(followed("", ""), "");
}

#[test]
fn holds_and_position_find_by_text() {
    let list = strings(&["mp3", "m4a", "mp3"]);
    assert!(holds(&list, &"m4a".to_string()));
    assert!(!holds(&list, &"flac".to_string()));
    assert_eq!(position(&list, &"mp3".to_string()), Some(0));
    assert_eq!(position(&list, &"m4a".to_string()), Some(1));
    assert_eq!(position(&list, &"MP3".to_string()), None);
}

#[test]
fn item_carries_episode_show_and_file() {
    let accepted = Accepted {
        format: "mp3".to_string(),
        file: "ep1.mp3".to_string(),
        url: "https://cdn.example.org/show/ep1.mp3".to_string(),
    };
    let item = assemble_item(&episode(), &accepted, &show(false));
    assert_eq!(
        item,
        FeedItem {
            title: "First".to_string(),
            description: "Where it begins".to_string(),
            author: "ann@example.org".to_string(),
            pub_date: "Mon, 01 Jan 2024 08:00:00 GMT".to_string(),
            link: "https://cdn.example.org/show/ep1.mp3".to_string(),
            enclosure: Enclosure {
                url: "https://cdn.example.org/show/ep1.mp3".to_string(),
                mime_type: "audio/mpeg".to_string(),
            },
            guid: Guid {
                value: "https://cdn.example.org/show/ep1.mp3".to_string(),
                permalink: true,
            },
            itunes: ItemExtension {
                author: "Ann Author".to_string(),
                image: "https://example.org/logo.png".to_string(),
                duration: "00:42:00".to_string(),
                explicit: false,
                summary: "Where it begins".to_string(),
                subtitle: "A beginning".to_string(),
                keywords: "pilot, intro, news".to_string(),
            },
        }
    );
}

#[test]
fn item_of_an_unknown_format_has_an_empty_media_type() {
    let accepted = Accepted {
        format: "ogg".to_string(),
        file: "ep1.ogg".to_string(),
        url: "https://cdn.example.org/show/ep1.ogg".to_string(),
    };
    let item = assemble_item(&episode(), &accepted, &show(true));
    assert_eq!(item.enclosure.mime_type, "");
    assert!(item.itunes.explicit);
}

#[test]
fn header_carries_the_show() {
    let header = assemble_header(&show(true));
    assert_eq!(
        header,
        ChannelHeader {
            title: "The Show".to_string(),
            link: "https://example.org".to_string(),
            description: "A show about shows".to_string(),
            language: "en-gb".to_string(),
            copyright: "2024 Ann Author".to_string(),
            managing_editor: "editor@example.org".to_string(),
            webmaster: "web@example.org".to_string(),
            pub_date: String::new(),
            last_build_date: String::new(),
            generator: "pfg-rs".to_string(),
            image: FeedImage {
                url: "https://example.org/logo.png".to_string(),
                title: "The Show Logo".to_string(),
                link: "https://example.org".to_string(),
            },
            itunes: ChannelExtension {
                author: "Ann Author".to_string(),
                category: "Technology".to_string(),
                image: "https://example.org/logo.png".to_string(),
                explicit: true,
                owner: ItunesOwner {
                    name: "Ann Author".to_string(),
                    email: "ann@example.org".to_string(),
                },
                subtitle: "Shows".to_string(),
                summary: "A show about shows".to_string(),
                keywords: "talk, radio".to_string(),
            },
            namespaces: vec![
                Namespace {
                    prefix: "atom".to_string(),
                    uri: "http://www.w3.org/2005/Atom".to_string(),
                },
                Namespace {
                    prefix: "itunes".to_string(),
                    uri: "http://www.itunes.com/dtds/podcast-1.0.dtd".to_string(),
                },
                Namespace {
                    prefix: "itunesu".to_string(),
                    uri: "http://www.itunesu.com/feed".to_string(),
                },
            ],
        }
    );
}

#[test]
fn header_copy_equals_the_header() {
    let header = assemble_header(&show(false));
    assert_eq!(header.clone(), header);
}
