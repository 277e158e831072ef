use spotify_dl::names::{file_extension, file_stem, make_filename_compatible};
use spotify_dl::track::{
    artist_label, compression_for, extension_from_encoding, join_artists, pad_three,
    track_base_name, track_file_name, Encoding,
};

#[test]
fn sanitizing_removes_reserved_characters() {
    assert_eq!(make_filename_compatible("A/B: C*D"), "AB CD");
}

#[test]
fn sanitizing_removes_every_reserved_and_non_ascii_character() {
    assert_eq!(make_filename_compatible("<a>b:'c\"d/e\\f|g?h*i"), "abcdefghi");
    assert_eq!(make_filename_compatible("tab\there\u{7f}é!"), "tabhere!");
    assert_eq!(make_filename_compatible(""), "");
}

#[test]
fn stem_and_extension_of_plain_names() {
    assert_eq!(file_stem("song.mp3"), "song");
    assert_eq!(file_extension("song.mp3"), Some("mp3".to_string()));
    assert_eq!(file_stem("a.b.flac"), "a.b");
    assert_eq!(file_extension("a.b.flac"), Some("flac".to_string()));
}

#[test]
fn stem_and_extension_edge_cases() {
    assert_eq!(file_stem("noext"), "noext");
    assert_eq!(file_extension("noext"), None);
    assert_eq!(file_stem(".hidden"), ".hidden");
    assert_eq!(file_extension(".hidden"), None);
    assert_eq!(file_stem("trail."), "trail");
    assert_eq!(file_extension("trail."), Some(String::new()));
    assert_eq!(file_stem(".."), "..");
    assert_eq!(file_extension(".."), None);
}

#[test]
fn extension_and_compression_follow_encoding() {
    assert_eq!(extension_from_encoding(Encoding::Mp3), "mp3");
    assert_eq!(extension_from_encoding(Encoding::Flac { compression: None }), "flac");
    assert_eq!(compression_for(Encoding::Mp3), None);
    assert_eq!(compression_for(Encoding::Flac { compression: None }), Some(4));
    assert_eq!(compression_for(Encoding::Flac { compression: Some(8) }), Some(8));
}

#[test]
fn artists_are_joined_with_comma() {
    let artists = vec!["X".to_string(), "Y".to_string(), "Z".to_string()];
    assert_eq!(join_artists(&artists), "X, Y, Z");
    assert_eq!(join_artists(&vec!["X".to_string()]), "X");
    assert_eq!(join_artists(&Vec::new()), "");
}

#[test]
fn artist_label_trims_trailing_separators() {
    let artists = vec!["X".to_string(), "Y".to_string()];
    assert_eq!(artist_label(&artists), "X, Y");
    assert_eq!(artist_label(&vec!["Solo, ".to_string()]), "Solo, ");
    let trailing = vec!["A".to_string(), "B, ".to_string()];
    assert_eq!(artist_label(&trailing), "A, B");
}

#[test]
fn numbers_are_padded_to_three_digits() {
    assert_eq!(pad_three(1), "001");
    assert_eq!(pad_three(42), "042");
    assert_eq!(pad_three(100), "100");
    assert_eq!(pad_three(12345), "12345");
}

#[test]
fn track_names_with_and_without_order() {
    assert_eq!(track_base_name(0, false, "X", "T/1"), "X - T1");
    assert_eq!(track_base_name(0, true, "X", "T"), "001 - X - T");
    assert_eq!(track_file_name(99, true, "X", "T", Encoding::Mp3), "100 - X - T.mp3");
    assert_eq!(
        track_file_name(4, false, "A: B", "C?", Encoding::Flac { compression: None }),
        "A B - C.flac"
    );
}
