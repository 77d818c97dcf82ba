use pfg_rs::mime::{lower_char, resolve};

#[test]
fn known_formats_resolve_to_their_media_types() {
    assert_eq!(resolve("mp3"), "audio/mpeg");
    assert_eq!(resolve("m4a"), "audio/mp4");
    assert_eq!(resolve("flac"), "audio/flac");
}

#[test]
fn letters_match_in_either_case() {
    assert_eq!(resolve("MP3"), "audio/mpeg");
    assert_eq!(resolve("M4a"), "audio/mp4");
    assert_eq!(resolve("FlaC"), "audio/flac");
}

#[test]
fn unknown_formats_resolve_to_the_empty_string() {
    assert_eq!(resolve("ogg"), "");
    assert_eq!(resolve(""), "");
    assert_eq!(resolve("mp33"), "");
    assert_eq!(resolve("mp"), "");
}

#[test]
fn only_ascii_capitals_are_lowered() {
    assert_eq!(lower_char('A'), 'a');
    assert_eq!(lower_char('Z'), 'z');
    assert_eq!(lower_char('m'), 'm');
    assert_eq!(lower_char('3'), '3');
    assert_eq!(lower_char('@'), '@');
    assert_eq!(lower_char('['), '[');
    assert_eq!(lower_char('É'), 'É');
}

#[test]
fn resolve_agrees_with_full_lower_casing() {
    for format in ["mp3", "Mp3", "mP3", "M4A", "FLAC", "fLaC", "ogg", "MP4", "\u{212a}", "mp3 ", ".mp3"] {
        let expected = match format.to_lowercase().as_str() {
            "mp3" => "audio/mpeg",
            "m4a" => "audio/mp4",
            "flac" => "audio/flac",
            _ => "",
        };
        assert_eq!(resolve(format), expected, "for {:?}", format);
    }
}
