use pfg_rs::assemble::assemble_header;
use pfg_rs::generate::{generate_xmls, Generated};
use pfg_rs::route::{Rejection, RejectionKind};
use pfg_rs::show::{Episode, Logo, Podcast};

fn strings(items: &[&str]) -> Vec<String> {
    items.iter().map(|s| s.to_string()).collect()
}

fn episode(title: &str, files: &[&str]) -> Episode {
    Episode {
        title: title.to_string(),
        url: format!("https://example.org/episodes/{}", title),
        description: format!("About {}", title),
        subtitle: format!("{} in short", title),
        files: strings(files),
        duration: "00:30:00".to_string(),
        publish_date: "Tue, 02 Jan 2024 08:00:00 GMT".to_string(),
        keywords: strings(&["one", "two"]),
    }
}

fn show(formats: &[&str], episodes: Vec<Episode>) -> Podcast {
    Podcast {
        title: "The Show".to_string(),
        description: "A show about shows".to_string(),
        subtitle: "Shows".to_string(),
        author: "Ann Author".to_string(),
        author_email: "ann@example.org".to_string(),
        website: "https://example.org".to_string(),
        language: "en".to_string(),
        copyright: "2024 Ann Author".to_string(),
        webmaster: "web@example.org".to_string(),
        managing_editor: "editor@example.org".to_string(),
        formats: strings(formats),
        hosting_base_url: "https://cdn.example.org/show".to_string(),
        keywords: strings(&["talk"]),
        explicit: false,
        logo: Logo {
            url: "https://example.org/logo.png".to_string(),
            title: "Logo".to_string(),
            link: "https://example.org".to_string(),
        },
        category: "Technology".to_string(),
        episodes,
    }
}

fn formats_of(generated: &Generated) -> Vec<&str> {
    generated.documents.iter().map(|d| d.format.as_str()).collect()
}

#[test]
fn two_formats_of_one_episode_give_two_documents() {
    let generated = generate_xmls(&show(&["mp3", "m4a"], vec![episode("ep1", &["ep1.mp3", "ep1.m4a"])]));
    assert_eq!(formats_of(&generated), vec!["mp3", "m4a"]);
    assert!(generated.rejections.is_empty());
    let mp3 = &generated.documents[0];
    let m4a = &generated.documents[1];
    assert_eq!(mp3.items.len(), 1);
    assert_eq!(m4a.items.len(), 1);
    assert_eq!(mp3.items[0].title, "ep1");
    assert_eq!(m4a.items[0].title, "ep1");
    assert_eq!(mp3.items[0].enclosure.mime_type, "audio/mpeg");
    assert_eq!(m4a.items[0].enclosure.mime_type, "audio/mp4");
    assert_eq!(mp3.items[0].enclosure.url, "https://cdn.example.org/show/ep1.mp3");
    assert_eq!(m4a.items[0].enclosure.url, "https://cdn.example.org/show/ep1.m4a");
}

#[test]
fn second_file_of_a_format_is_a_duplicate() {
    let generated = generate_xmls(&show(&["mp3"], vec![episode("ep1", &["ep1.mp3", "ep1.mp3"])]));
    assert_eq!(formats_of(&generated), vec!["mp3"]);
    assert_eq!(generated.documents[0].items.len(), 1);
    assert_eq!(
        generated.rejections,
        vec![Rejection {
            kind: RejectionKind::DuplicateFormat,
            episode: "ep1".to_string(),
            file: "ep1.mp3".to_string(),
            format: "mp3".to_string(),
        }]
    );
}

#[test]
fn first_of_two_files_of_a_format_gives_the_item() {
    let generated = generate_xmls(&show(&["mp3"], vec![episode("ep1", &["first.mp3", "second.mp3"])]));
    assert_eq!(generated.documents.len(), 1);
    assert_eq!(generated.documents[0].items.len(), 1);
    let item = &generated.documents[0].items[0];
    assert_eq!(item.enclosure.url, "https://cdn.example.org/show/first.mp3");
    assert_eq!(item.link, "https://cdn.example.org/show/first.mp3");
    assert_eq!(item.guid.value, "https://cdn.example.org/show/first.mp3");
    assert!(item.guid.permalink);
    assert_eq!(generated.rejections.len(), 1);
    assert_eq!(generated.rejections[0].kind, RejectionKind::DuplicateFormat);
    assert_eq!(generated.rejections[0].file, "second.mp3");
}

#[test]
fn undeclared_format_gives_no_document() {
    let generated = generate_xmls(&show(&["mp3"], vec![episode("ep1", &["ep1.flac"])]));
    assert!(generated.documents.is_empty());
    assert_eq!(
        generated.rejections,
        vec![Rejection {
            kind: RejectionKind::UnsupportedFormat,
            episode: "ep1".to_string(),
            file: "ep1.flac".to_string(),
            format: "flac".to_string(),
        }]
    );
}

#[test]
fn declared_format_without_files_gives_no_document() {
    let generated = generate_xmls(&show(
        &["mp3", "flac"],
        vec![episode("ep1", &["ep1.mp3"]), episode("ep2", &["ep2.mp3"])],
    ));
    assert_eq!(formats_of(&generated), vec!["mp3"]);
    assert!(generated.rejections.is_empty());
}

#[test]
fn documents_have_declared_formats_and_entries() {
    let declared = ["flac", "mp3", "m4a", "ogg"];
    let generated = generate_xmls(&show(
        &declared,
        vec![
            episode("ep1", &["ep1.mp3", "ep1.wav", "ep1"]),
            episode("ep2", &["ep2.m4a", "ep2.mp3", "ep2.m4a"]),
            episode("ep3", &[]),
        ],
    ));
    assert_eq!(formats_of(&generated), vec!["mp3", "m4a"]);
    for document in &generated.documents {
        assert!(declared.contains(&document.format.as_str()));
        assert!(!document.items.is_empty());
    }
}

#[test]
fn items_follow_the_order_of_the_episodes() {
    let generated = generate_xmls(&show(
        &["mp3", "m4a"],
        vec![
            episode("ep1", &["ep1.m4a", "ep1.mp3"]),
            episode("ep2", &["ep2.mp3"]),
            episode("ep3", &["ep3.mp3", "ep3.m4a"]),
        ],
    ));
    assert_eq!(formats_of(&generated), vec!["mp3", "m4a"]);
    let mp3: Vec<&str> = generated.documents[0].items.iter().map(|i| i.title.as_str()).collect();
    let m4a: Vec<&str> = generated.documents[1].items.iter().map(|i| i.title.as_str()).collect();
    assert_eq!(mp3, vec!["ep1", "ep2", "ep3"]);
    assert_eq!(m4a, vec!["ep1", "ep3"]);
}

#[test]
fn rejections_follow_the_order_of_episodes_and_files() {
    let generated = generate_xmls(&show(
        &["mp3"],
        vec![
            episode("ep1", &["a.ogg", "a.mp3", "a"]),
            episode("ep2", &["b.mp3", "b.mp3"]),
        ],
    ));
    let passed: Vec<(&str, &str, RejectionKind)> = generated
        .rejections
        .iter()
        .map(|r| (r.episode.as_str(), r.file.as_str(), r.kind))
        .collect();
    assert_eq!(
        passed,
        vec![
            ("ep1", "a.ogg", RejectionKind::UnsupportedFormat),
            ("ep1", "a", RejectionKind::MalformedFileName),
            ("ep2", "b.mp3", RejectionKind::DuplicateFormat),
        ]
    );
    assert_eq!(generated.documents.len(), 1);
    assert_eq!(generated.documents[0].items.len(), 2);
}

#[test]
fn every_document_carries_the_same_header() {
    let show = show(&["mp3", "m4a", "flac"], vec![episode("ep1", &["ep1.flac", "ep1.mp3", "ep1.m4a"])]);
    let generated = generate_xmls(&show);
    assert_eq!(generated.documents.len(), 3);
    let header = assemble_header(&show);
    for document in &generated.documents {
        assert_eq!(document.header, header);
    }
}

#[test]
fn format_declared_twice_gives_one_document() {
    let generated = generate_xmls(&show(&["mp3", "m4a", "mp3"], vec![episode("ep1", &["ep1.mp3", "ep1.m4a"])]));
    assert_eq!(formats_of(&generated), vec!["mp3", "m4a"]);
}

#[test]
fn show_without_formats_reports_every_file() {
    let generated = generate_xmls(&show(&[], vec![episode("ep1", &["ep1.mp3", "ep1"])]));
    assert!(generated.documents.is_empty());
    let kinds: Vec<RejectionKind> = generated.rejections.iter().map(|r| r.kind).collect();
    assert_eq!(kinds, vec![RejectionKind::UnsupportedFormat, RejectionKind::MalformedFileName]);
}

#[test]
fn show_without_episodes_gives_nothing() {
    let generated = generate_xmls(&show(&["mp3"], vec![]));
    assert!(generated.documents.is_empty());
    assert!(generated.rejections.is_empty());
}

#[test]
fn file_in_another_case_than_declared_is_unsupported() {
    let generated = generate_xmls(&show(&["mp3"], vec![episode("ep1", &["ep1.MP3"])]));
    assert!(generated.documents.is_empty());
    assert_eq!(generated.rejections.len(), 1);
    assert_eq!(generated.rejections[0].kind, RejectionKind::UnsupportedFormat);
    assert_eq!(generated.rejections[0].format, "MP3");
}

#[test]
fn declared_format_in_capitals_still_has_its_media_type() {
    let generated = generate_xmls(&show(&["MP3"], vec![episode("ep1", &["ep1.MP3"])]));
    assert_eq!(formats_of(&generated), vec!["MP3"]);
    assert_eq!(generated.documents[0].items[0].enclosure.mime_type, "audio/mpeg");
}

#[test]
fn a_passed_over_file_changes_no_document() {
    let with = generate_xmls(&show(
        &["mp3", "m4a"],
        vec![
            episode("ep1", &["ep1.mp3", "ep1.ogg", "ep1.m4a", "notes"]),
            episode("ep2", &["ep2.flac", "ep2.mp3"]),
        ],
    ));
    let without = generate_xmls(&show(
        &["mp3", "m4a"],
        vec![episode("ep1", &["ep1.mp3", "ep1.m4a"]), episode("ep2", &["ep2.mp3"])],
    ));
    assert_eq!(with.documents, without.documents);
    assert_eq!(with.rejections.len(), 3);
    assert!(without.rejections.is_empty());
}
