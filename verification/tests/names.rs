use media_mirror::names::extension;
use media_mirror::names::find_last_dot;
use media_mirror::names::replace_extension;

#[test]
fn extension_follows_the_last_dot() {
    assert_eq!(extension("song.flac"), Some("flac".to_string()));
    assert_eq!(extension("archive.tar.gz"), Some("gz".to_string()));
    assert_eq!(extension("a.b"), Some("b".to_string()));
}

#[test]
fn name_without_dot_has_no_extension() {
    assert_eq!(extension("noext"), None);
    assert_eq!(extension(""), None);
}

#[test]
fn leading_dot_alone_makes_no_extension() {
    assert_eq!(extension(".hidden"), None);
    assert_eq!(extension("."), None);
}

#[test]
fn hidden_file_with_second_dot_has_extension() {
    assert_eq!(extension(".hidden.mp3"), Some("mp3".to_string()));
    assert_eq!(extension("..a"), Some("a".to_string()));
}

#[test]
fn trailing_dot_gives_empty_extension() {
    assert_eq!(extension("song."), Some(String::new()));
}

#[test]
fn extension_counts_characters_not_bytes() {
    assert_eq!(extension("übung.mp3"), Some("mp3".to_string()));
    assert_eq!(extension("song.äöü"), Some("äöü".to_string()));
}

#[test]
fn last_dot_position() {
    assert_eq!(find_last_dot("song.flac"), Some(4));
    assert_eq!(find_last_dot("a.b.c"), Some(3));
    assert_eq!(find_last_dot(".x"), Some(0));
    assert_eq!(find_last_dot("übung.mp3"), Some(5));
    assert_eq!(find_last_dot("none"), None);
    assert_eq!(find_last_dot(""), None);
}

#[test]
fn replace_extension_keeps_the_stem() {
    assert_eq!(replace_extension("song.flac", "opus"), Some("song.opus".to_string()));
    assert_eq!(replace_extension("track.mp3", "opus"), Some("track.opus".to_string()));
    assert_eq!(replace_extension("a.b.m4a", "mp3"), Some("a.b.mp3".to_string()));
}

#[test]
fn replace_extension_touches_only_the_extension() {
    assert_eq!(replace_extension("mp3.mp3", "opus"), Some("mp3.opus".to_string()));
    assert_eq!(replace_extension("flacflac.flac", "mp3"), Some("flacflac.mp3".to_string()));
}

#[test]
fn replace_extension_needs_an_extension() {
    assert_eq!(replace_extension("noext", "opus"), None);
    assert_eq!(replace_extension(".hidden", "opus"), None);
    assert_eq!(replace_extension("", "opus"), None);
}

#[test]
fn replace_empty_extension() {
    assert_eq!(replace_extension("song.", "mp3"), Some("song.mp3".to_string()));
}

#[test]
fn replaced_name_has_the_new_extension() {
    let renamed = replace_extension("x.y.flac", "opus").unwrap();
    assert_eq!(extension(&renamed), Some("opus".to_string()));
    assert_eq!(find_last_dot(&renamed), find_last_dot("x.y.flac"));
}
