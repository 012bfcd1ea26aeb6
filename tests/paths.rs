use ruso::paths::{file_extension, is_nested_under, rated_audio_path, rated_file_name, rated_map_file, sibling_path};

#[test]
fn rated_names() {
    assert_eq!(rated_file_name("audio.mp3", 150), "audio(1.5).mp3");
    assert_eq!(rated_file_name("audio.tar.ogg", 125), "audio.tar(1.25).ogg");
    assert_eq!(rated_file_name("audio", 200), "audio(2)");
    assert_eq!(rated_file_name(".hidden", 150), ".hidden(1.5)");
}

#[test]
fn rated_paths_keep_directory() {
    assert_eq!(rated_audio_path("/songs/1 a/audio.ogg", 125), "/songs/1 a/audio(1.25).ogg");
    assert_eq!(rated_audio_path("audio.wav", 200), "audio(2).wav");
    assert_eq!(
        rated_map_file("/s/m/Artist - T (Mapper) [Hard].osu", 150, false),
        "/s/m/Artist - T (Mapper) [Hard](1.5).osu"
    );
    assert_eq!(rated_map_file("/s/m/map.osu", 150, true), "/s/m/map(1.5).osz");
    assert_eq!(sibling_path("/s/m/map.osu", "audio.mp3"), "/s/m/audio.mp3");
    assert_eq!(sibling_path("map.osu", "audio.mp3"), "audio.mp3");
}

#[test]
fn extensions() {
    assert_eq!(file_extension("a.mp3"), Some("mp3"));
    assert_eq!(file_extension("a.b.c"), Some("c"));
    assert_eq!(file_extension("a."), Some(""));
    assert_eq!(file_extension("a"), None);
    assert_eq!(file_extension(".a"), None);
}

#[test]
fn nesting_is_by_component() {
    assert!(is_nested_under("/a/b/c", "/a/b"));
    assert!(is_nested_under("/a/b/c", "/a/b/"));
    assert!(is_nested_under("/a/b", "/a/b"));
    assert!(!is_nested_under("/a/bc", "/a/b"));
    assert!(!is_nested_under("/a", "/a/b"));
    assert!(!is_nested_under("/other/x", "/a/b"));
    assert!(!is_nested_under("/a/b/c", ""));
}
