use media_mirror::paths::child;
use media_mirror::paths::copy_path;
use media_mirror::paths::join;
use media_mirror::paths::parent;
use media_mirror::paths::strip_prefix;

fn path(text: &str) -> Vec<String> {
    text.split('/').filter(|part| !part.is_empty()).map(|part| part.to_string()).collect()
}

#[test]
fn strip_prefix_takes_the_base_off() {
    assert_eq!(strip_prefix(&path("in/a/b/song.flac"), &path("in")), Some(path("a/b/song.flac")));
    assert_eq!(strip_prefix(&path("in/a/b"), &path("in/a")), Some(path("b")));
}

#[test]
fn strip_prefix_of_itself_is_empty() {
    assert_eq!(strip_prefix(&path("in/a"), &path("in/a")), Some(Vec::<String>::new()));
    assert_eq!(strip_prefix(&path(""), &path("")), Some(Vec::<String>::new()));
}

#[test]
fn strip_prefix_with_empty_base_keeps_all() {
    assert_eq!(strip_prefix(&path("a/b"), &path("")), Some(path("a/b")));
}

#[test]
fn strip_prefix_compares_whole_components() {
    assert_eq!(strip_prefix(&path("input/a"), &path("in")), None);
    assert_eq!(strip_prefix(&path("in/ab"), &path("in/a")), None);
}

#[test]
fn strip_prefix_fails_outside_the_base() {
    assert_eq!(strip_prefix(&path("other/a"), &path("in")), None);
    assert_eq!(strip_prefix(&path("in"), &path("in/a")), None);
    assert_eq!(strip_prefix(&path("a/in/b"), &path("in")), None);
}

#[test]
fn parent_drops_the_last_component() {
    assert_eq!(parent(&path("a/b/song.flac")), Some(path("a/b")));
    assert_eq!(parent(&path("song.flac")), Some(Vec::<String>::new()));
}

#[test]
fn empty_path_has_no_parent() {
    assert_eq!(parent(&path("")), None);
}

#[test]
fn join_appends_the_components() {
    assert_eq!(join(&path("out"), &path("a/b")), path("out/a/b"));
    assert_eq!(join(&path("out"), &path("")), path("out"));
    assert_eq!(join(&path(""), &path("a")), path("a"));
}

#[test]
fn child_appends_one_name() {
    assert_eq!(child(&path("out/a"), "song.opus".to_string()), path("out/a/song.opus"));
    assert_eq!(child(&path(""), "x".to_string()), path("x"));
}

#[test]
fn copy_path_is_equal() {
    assert_eq!(copy_path(&path("a/b/c")), path("a/b/c"));
    assert_eq!(copy_path(&path("")), Vec::<String>::new());
}
