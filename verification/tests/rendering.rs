use pfg_rs::channel_xml::{explicit_label, serialize};
use pfg_rs::feed::Namespace;
use pfg_rs::generate::generate_xmls;
use pfg_rs::pretty::{decoded, format_xml, SerializationFailure};
use pfg_rs::render::{generate_feeds, render, render_all};
use pfg_rs::route::RejectionKind;
use pfg_rs::show::{Episode, Logo, Podcast};

fn strings(items: &[&str]) -> Vec<String> {
    items.iter().map(|s| s.to_string()).collect()
}

fn show(title: &str, formats: &[&str], files: &[&str]) -> Podcast {
    Podcast {
        title: title.to_string(),
        description: "A show about shows".to_string(),
        subtitle: "Shows".to_string(),
        author: "Ann Author".to_string(),
        author_email: "ann@example.org".to_string(),
        website: "https://example.org".to_string(),
        language: "en".to_string(),
        copyright: "2024 Ann Author".to_string(),
        webmaster: "web@example.org".to_string(),
        managing_editor: "editor@example.org".to_string(),
        formats: strings(formats),
        hosting_base_url: "https://cdn.example.org/show".to_string(),
        keywords: strings(&["talk", "radio"]),
        explicit: true,
        logo: Logo {
            url: "https://example.org/logo.png".to_string(),
            title: "Logo".to_string(),
            link: "https://example.org".to_string(),
        },
        category: "Technology".to_string(),
        episodes: vec![Episode {
            title: "First".to_string(),
            url: "https://example.org/episodes/1".to_string(),
            description: "Where it begins".to_string(),
            subtitle: "A beginning".to_string(),
            files: strings(files),
            duration: "00:42:00".to_string(),
            publish_date: "Mon, 01 Jan 2024 08:00:00 GMT".to_string(),
            keywords: strings(&["pilot", "intro"]),
        }],
    }
}

#[test]
fn explicit_label_is_explicit_or_clean() {
    assert_eq!(explicit_label(true), "Explicit");
    assert_eq!(explicit_label(false), "Clean");
}

#[test]
fn format_xml_indents_nested_elements() {
    let text = format_xml(b"<a><b>text</b><c><d/></c></a>").unwrap();
    println!("{}", text);
    assert_eq!(
        text,
        "<?xml version=\"1.0\" encoding=\"UTF-8\"?>\n<a>\n  <b>text</b>\n  <c>\n    <d>\n    </d>\n  </c>\n</a>"
    );
}

#[test]
fn format_xml_trims_white_space_and_keeps_comments() {
    let text = format_xml(b"<a>\n\n   <b>  padded  </b>   <!--note-->\n</a>").unwrap();
    println!("{}", text);
    assert_eq!(
        text,
        "<?xml version=\"1.0\" encoding=\"UTF-8\"?>\n<a>\n  <b>padded</b>\n  <!--note-->\n</a>"
    );
}

#[test]
fn format_xml_twice_gives_the_same_text() {
    let once = format_xml(b"<a x=\"1\"><b>text</b><c><d/></c><!-- c --></a>").unwrap();
    let twice = format_xml(once.as_bytes()).unwrap();
    assert_eq!(once, twice);
}

#[test]
fn format_xml_refuses_text_that_is_not_well_formed() {
    assert!(matches!(format_xml(b"<a><b></a>"), Err(SerializationFailure::Malformed(_))));
    assert!(matches!(format_xml(b""), Err(SerializationFailure::Malformed(_))));
    assert!(matches!(format_xml(b"<a>"), Err(SerializationFailure::Malformed(_))));
    assert!(matches!(format_xml(b"no markup"), Err(SerializationFailure::Malformed(_))));
}

#[test]
fn malformed_failure_carries_the_error_of_the_reader() {
    match format_xml(b"<a><b></a>") {
        Err(SerializationFailure::Malformed(error)) => assert!(!error.to_string().is_empty()),
        other => panic!("expected a malformed failure, got {:?}", other),
    }
}

#[test]
fn decoded_gives_the_text_of_utf8_bytes() {
    assert_eq!(decoded("héllo <x/>".as_bytes().to_vec()).unwrap(), "héllo <x/>");
    assert_eq!(decoded(Vec::new()).unwrap(), "");
}

#[test]
fn decoded_refuses_bytes_that_are_not_utf8() {
    assert!(matches!(decoded(vec![0x66, 0xff, 0x6f]), Err(SerializationFailure::Encoding(_))));
    assert!(matches!(decoded(vec![0xc3]), Err(SerializationFailure::Encoding(_))));
}

#[test]
fn serialized_document_declares_version_and_namespaces() {
    let generated = generate_xmls(&show("The Show", &["mp3"], &["ep1.mp3"]));
    let raw = serialize(&generated.documents[0]);
    println!("{}", raw);
    assert!(raw.contains("<rss version=\"2.0\""));
    assert!(raw.contains("xmlns:atom=\"http://www.w3.org/2005/Atom\""));
    assert!(raw.contains("xmlns:itunes=\"http://www.itunes.com/dtds/podcast-1.0.dtd\""));
    assert!(raw.contains("xmlns:itunesu=\"http://www.itunesu.com/feed\""));
    assert!(raw.contains("<title>The Show</title>"));
    assert!(raw.contains("<generator>pfg-rs</generator>"));
    assert!(raw.contains("<itunes:explicit>Explicit</itunes:explicit>"));
    assert!(raw.contains("<itunes:keywords>talk, radio</itunes:keywords>"));
    assert!(raw.contains("<guid isPermaLink=\"true\">https://cdn.example.org/show/ep1.mp3</guid>")
        || raw.contains("<guid>https://cdn.example.org/show/ep1.mp3</guid>"));
    assert!(raw.contains("type=\"audio/mpeg\""));
    assert!(raw.contains("url=\"https://cdn.example.org/show/ep1.mp3\""));
}

#[test]
fn rendered_document_holds_channel_and_item_elements() {
    let generated = generate_xmls(&show("The Show", &["mp3"], &["ep1.mp3"]));
    let text = render(&generated.documents[0]).unwrap();
    println!("{}", &text[..text.len().min(900)]);
    assert!(text.starts_with("<?xml version=\"1.0\" encoding=\"utf-8\"?>\n<rss "));
    assert!(text.contains("version=\"2.0\""));
    assert!(text.contains("xmlns:atom=\"http://www.w3.org/2005/Atom\""));
    assert!(text.contains("xmlns:itunes=\"http://www.itunes.com/dtds/podcast-1.0.dtd\""));
    assert!(text.contains("xmlns:itunesu=\"http://www.itunesu.com/feed\""));
    for line in [
        "\n  <channel>",
        "\n    <title>The Show</title>",
        "\n    <link>https://example.org</link>",
        "\n    <description>A show about shows</description>",
        "\n    <language>en</language>",
        "\n    <copyright>2024 Ann Author</copyright>",
        "\n    <managingEditor>editor@example.org</managingEditor>",
        "\n    <webMaster>web@example.org</webMaster>",
        "\n    <pubDate>\n    </pubDate>",
        "\n    <lastBuildDate>\n    </lastBuildDate>",
        "\n    <generator>pfg-rs</generator>",
        "\n    <image>\n      <url>https://example.org/logo.png</url>\n      <title>The Show Logo</title>\n      <link>https://example.org</link>\n    </image>",
        "\n    <itunes:author>Ann Author</itunes:author>",
        "\n    <itunes:category text=\"Technology\">\n    </itunes:category>",
        "\n    <itunes:image href=\"https://example.org/logo.png\">\n    </itunes:image>",
        "\n    <itunes:explicit>Explicit</itunes:explicit>",
        "\n    <itunes:owner>\n      <itunes:name>Ann Author</itunes:name>\n      <itunes:email>ann@example.org</itunes:email>\n    </itunes:owner>",
        "\n    <itunes:subtitle>Shows</itunes:subtitle>",
        "\n    <itunes:summary>A show about shows</itunes:summary>",
        "\n    <itunes:keywords>talk, radio</itunes:keywords>",
        "\n    <item>",
        "\n      <title>First</title>",
        "\n      <link>https://cdn.example.org/show/ep1.mp3</link>",
        "\n      <description><![CDATA[Where it begins]]></description>",
        "\n      <author>ann@example.org</author>",
        "\n      <enclosure url=\"https://cdn.example.org/show/ep1.mp3\" length=\"\" type=\"audio/mpeg\">\n      </enclosure>",
        "\n      <guid>https://cdn.example.org/show/ep1.mp3</guid>",
        "\n      <pubDate>Mon, 01 Jan 2024 08:00:00 GMT</pubDate>",
        "\n      <itunes:author>Ann Author</itunes:author>",
        "\n      <itunes:image href=\"https://example.org/logo.png\">\n      </itunes:image>",
        "\n      <itunes:duration>00:42:00</itunes:duration>",
        "\n      <itunes:explicit>Explicit</itunes:explicit>",
        "\n      <itunes:subtitle>A beginning</itunes:subtitle>",
        "\n      <itunes:summary>Where it begins</itunes:summary>",
        "\n      <itunes:keywords>pilot, intro</itunes:keywords>",
        "\n    </item>",
        "\n  </channel>",
        "\n</rss>",
    ] {
        assert!(text.contains(line), "missing {:?}", line);
    }
}

#[test]
fn rendering_the_rendered_text_again_gives_the_same_bytes() {
    let generated = generate_xmls(&show("The Show", &["mp3", "m4a"], &["ep1.mp3", "ep1.m4a"]));
    for document in &generated.documents {
        let once = render(document).unwrap();
        let twice = format_xml(once.as_bytes()).unwrap();
        assert_eq!(once.as_bytes(), twice.as_bytes());
    }
}

#[test]
fn rendering_escapes_markup_in_texts() {
    let generated = generate_xmls(&show("Q & A <live>", &["mp3"], &["ep1.mp3"]));
    let text = render(&generated.documents[0]).unwrap();
    assert!(text.contains("<title>Q &amp; A &lt;live></title>") || text.contains("<title>Q &amp; A &lt;live&gt;</title>"));
}

#[test]
fn a_document_that_cannot_be_rendered_stops_no_other() {
    let mut generated = generate_xmls(&show("The Show", &["mp3", "m4a"], &["ep1.mp3", "ep1.m4a"]));
    generated.documents[0].header.title = "bad \u{1} title".to_string();
    let rendered = render_all(&generated.documents);
    assert_eq!(rendered.len(), 2);
    assert_eq!(rendered[0].format, "mp3");
    assert_eq!(rendered[1].format, "m4a");
    assert!(matches!(rendered[0].text, Err(SerializationFailure::Malformed(_))));
    assert!(rendered[1].text.is_ok());
}

#[test]
fn render_all_of_no_documents_is_empty() {
    assert!(render_all(&Vec::new()).is_empty());
}

#[test]
fn rendering_keeps_the_element_tree() {
    let generated = generate_xmls(&show("Q & A", &["mp3"], &["ep1.mp3"]));
    let raw = serialize(&generated.documents[0]);
    let text = render(&generated.documents[0]).unwrap();
    let events_of = |text: &str| -> Vec<xml::reader::XmlEvent> {
        xml::reader::ParserConfig::new()
            .trim_whitespace(true)
            .ignore_comments(false)
            .create_reader(text.as_bytes())
            .into_iter()
            .map(|event| event.unwrap())
            .collect()
    };
    assert_ne!(raw, text);
    assert_eq!(events_of(&raw), events_of(&text));
}

#[test]
fn feeds_of_a_show_hold_a_text_for_each_document() {
    let feeds = generate_feeds(&show(
        "The Show",
        &["mp3", "flac", "m4a"],
        &["ep1.m4a", "ep1.mp3", "ep1.ogg", "ep1.mp3"],
    ));
    let formats: Vec<&str> = feeds.rendered.iter().map(|r| r.format.as_str()).collect();
    assert_eq!(formats, vec!["mp3", "m4a"]);
    for rendered in &feeds.rendered {
        let text = rendered.text.as_ref().unwrap();
        assert!(text.contains(&format!(
            "url=\"https://cdn.example.org/show/ep1.{}\"",
            rendered.format
        )));
    }
    let passed: Vec<(&str, RejectionKind)> =
        feeds.rejections.iter().map(|r| (r.file.as_str(), r.kind)).collect();
    assert_eq!(
        passed,
        vec![
            ("ep1.ogg", RejectionKind::UnsupportedFormat),
            ("ep1.mp3", RejectionKind::DuplicateFormat),
        ]
    );
}

#[test]
fn a_guid_that_is_no_permalink_says_so() {
    let mut generated = generate_xmls(&show("The Show", &["mp3"], &["ep1.mp3"]));
    generated.documents[0].items[0].guid.permalink = false;
    generated.documents[0].items[0].itunes.explicit = false;
    let text = render(&generated.documents[0]).unwrap();
    assert!(text.contains("<guid isPermaLink=\"false\">https://cdn.example.org/show/ep1.mp3</guid>"));
    assert!(text.contains("\n      <itunes:explicit>Clean</itunes:explicit>"));
    assert!(text.contains("\n    <itunes:explicit>Explicit</itunes:explicit>"));
}

#[test]
fn of_two_namespaces_with_one_prefix_the_later_stands() {
    let mut generated = generate_xmls(&show("The Show", &["mp3"], &["ep1.mp3"]));
    generated.documents[0].header.namespaces.push(Namespace {
        prefix: "atom".to_string(),
        uri: "urn:example:later".to_string(),
    });
    generated.documents[0].header.namespaces.push(Namespace {
        prefix: "extra".to_string(),
        uri: "urn:example:extra".to_string(),
    });
    let raw = serialize(&generated.documents[0]);
    assert!(raw.contains("xmlns:atom=\"urn:example:later\""));
    assert!(!raw.contains("xmlns:atom=\"http://www.w3.org/2005/Atom\""));
    assert!(raw.contains("xmlns:extra=\"urn:example:extra\""));
    assert!(raw.contains("xmlns:itunesu=\"http://www.itunesu.com/feed\""));
}

#[test]
fn serialized_entries_keep_the_order_of_the_document() {
    let mut generated = generate_xmls(&show("The Show", &["mp3"], &["ep1.mp3"]));
    let mut second = generated.documents[0].items[0].clone();
    second.title = "Second".to_string();
    generated.documents[0].items.push(second);
    let raw = serialize(&generated.documents[0]);
    let first_at = raw.find("<title>First</title>").unwrap();
    let second_at = raw.find("<title>Second</title>").unwrap();
    assert!(first_at < second_at);
    assert_eq!(raw.matches("<item>").count(), 2);
}

#[test]
fn format_xml_puts_one_element_on_each_line() {
    let text = format_xml(br#"<?xml version="1.0" encoding="UTF-8"?><a><b>x</b></a>"#).unwrap();
    let lines: Vec<&str> = text.lines().collect();
    assert_eq!(
        lines,
        vec![r#"<?xml version="1.0" encoding="UTF-8"?>"#, "<a>", "  <b>x</b>", "</a>"]
    );
}

#[test]
fn format_xml_keeps_a_comment_without_padding() {
    let text = format_xml(b"<a><!--x--></a>").unwrap();
    assert!(text.contains("<!--x-->"));
    assert!(!text.contains("<!-- x -->"));
}

#[test]
fn format_xml_does_not_close_an_empty_element_in_its_start_tag() {
    let text = format_xml(b"<a><b/></a>").unwrap();
    assert!(text.contains("<b>"));
    assert!(text.contains("</b>"));
    assert!(!text.contains("/>"));
}

#[test]
fn format_xml_does_not_depend_on_the_layout_of_the_source() {
    let dense = format_xml(b"<a><b>text</b><c><d>more</d></c></a>").unwrap();
    let loose =
        format_xml(b"<a>\n\t<b>  text </b>\n\n   <c>\n<d>\nmore\n</d>   </c>\n</a>\n").unwrap();
    assert_eq!(dense, loose);
}
