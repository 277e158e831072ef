use spotify_dl::catalog::{file_exists, is_audio_file, plan_track, stale_entries};
use spotify_dl::track::Encoding;

fn names(v: &[&str]) -> Vec<String> {
    v.iter().map(|s| s.to_string()).collect()
}

#[test]
fn reconciler_deletes_only_unknown_audio() {
    let entries = names(&["a.mp3", "b.flac", "c.txt"]);
    let known = names(&["a"]);
    assert_eq!(stale_entries(&entries, &known), names(&["b.flac"]));
}

#[test]
fn reconciler_keeps_unrecognised_extensions_and_keeps_order() {
    let entries = names(&["z.ogg", "notes", "y.wav", "x.MP3", "k.mp3"]);
    let known = names(&["k"]);
    assert_eq!(stale_entries(&entries, &known), names(&["z.ogg", "y.wav"]));
    assert_eq!(stale_entries(&Vec::new(), &known), Vec::<String>::new());
}

#[test]
fn audio_extensions() {
    assert!(is_audio_file("a.mp3"));
    assert!(is_audio_file("a.flac"));
    assert!(is_audio_file("a.wav"));
    assert!(is_audio_file("a.ogg"));
    assert!(!is_audio_file("a.txt"));
    assert!(!is_audio_file(".mp3"));
    assert!(!is_audio_file("mp3"));
}

#[test]
fn guard_matches_other_format() {
    let entries = names(&["track.wav"]);
    assert!(file_exists(&entries, "track"));
    assert!(!file_exists(&entries, "track.wav"));
    assert!(!file_exists(&Vec::new(), "track"));
}

#[test]
fn plan_skips_track_present_in_another_format() {
    let artists = names(&["X"]);
    let entries = names(&["X - T.wav", "other.mp3"]);
    let plan = plan_track(0, false, &artists, "T", Encoding::Mp3, &entries);
    assert_eq!(plan.file_name, "X - T.mp3");
    assert_eq!(plan.base_name, "X - T");
    assert!(plan.skip);
}

#[test]
fn second_run_skips_what_the_first_wrote() {
    let artists = names(&["X", "Y"]);
    let mut entries: Vec<String> = Vec::new();
    let first = plan_track(2, true, &artists, "T", Encoding::Mp3, &entries);
    assert!(!first.skip);
    assert_eq!(first.file_name, "003 - X, Y - T.mp3");
    entries.push(first.file_name.clone());
    let second = plan_track(2, true, &artists, "T", Encoding::Mp3, &entries);
    assert!(second.skip);
    assert_eq!(second.base_name, first.base_name);
}
