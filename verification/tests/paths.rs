use dirworld::paths::{
    extensions, file_name, file_stem_no_extensions, is_hidden, join, name_extensions,
    no_extensions, parent,
};
use dirworld::Extensions;

fn some(text: &str) -> Option<String> {
    Some(text.to_string())
}

#[test]
fn extensions_are_everything_behind_the_first_inner_dot() {
    assert_eq!(extensions("/world/door.tar.xz.aes"), some("tar.xz.aes"));
    assert_eq!(extensions("/world/a.png"), some("png"));
    assert_eq!(extensions("a.b"), some("b"));
    assert_eq!(extensions("a."), some(""));
    assert_eq!(extensions("a..b"), some(".b"));
}

#[test]
fn entries_without_extensions_have_none() {
    assert_eq!(extensions("/world/room1"), None);
    assert_eq!(extensions("/world/.door"), None);
    assert_eq!(extensions(""), None);
    assert_eq!(extensions("/"), None);
    assert_eq!(extensions("/world/.."), None);
    assert_eq!(extensions("/world.d/file"), None);
}

#[test]
fn a_leading_dot_starts_no_extension() {
    assert_eq!(extensions("/home/.config.toml"), some("toml"));
    assert_eq!(name_extensions(".hidden"), None);
    assert_eq!(name_extensions(".a.b.c"), some("b.c"));
}

#[test]
fn file_name_is_the_last_component() {
    assert_eq!(file_name("/world/room1/a.png"), some("a.png"));
    assert_eq!(file_name("/world/room1/"), some("room1"));
    assert_eq!(file_name("/world/room1///"), some("room1"));
    assert_eq!(file_name("plain"), some("plain"));
    assert_eq!(file_name("/"), None);
    assert_eq!(file_name(""), None);
    assert_eq!(file_name("/world/.."), None);
    assert_eq!(file_name("/world/."), None);
    assert_eq!(file_name(".."), None);
    assert_eq!(file_name("/world/..."), some("..."));
}

#[test]
fn stem_is_the_name_without_its_extensions() {
    assert_eq!(file_stem_no_extensions("/world/door.tar.xz.aes"), some("door"));
    assert_eq!(file_stem_no_extensions("/world/room1"), some("room1"));
    assert_eq!(file_stem_no_extensions("/world/.door"), some(".door"));
    assert_eq!(file_stem_no_extensions("/world/.."), None);
    assert_eq!(file_stem_no_extensions(""), None);
}

#[test]
fn no_extensions_cuts_the_path_behind_the_stem() {
    assert_eq!(no_extensions("/world/door.tar.xz.aes"), "/world/door");
    assert_eq!(no_extensions("/world/room1"), "/world/room1");
    assert_eq!(no_extensions("/world.d/door.aes/"), "/world.d/door");
    assert_eq!(no_extensions("/world/.."), "/world/..");
    assert_eq!(no_extensions(""), "");
}

#[test]
fn join_puts_one_separator_between() {
    assert_eq!(join("/world", "room1"), "/world/room1");
    assert_eq!(join("/world/", "room1"), "/world/room1");
    assert_eq!(join("", "room1"), "room1");
    assert_eq!(join("/", ".door"), "/.door");
    assert_eq!(join("/world/room1", ".."), "/world/room1/..");
}

#[test]
fn parent_is_the_path_without_its_last_component() {
    assert_eq!(parent("/world/room1"), some("/world"));
    assert_eq!(parent("/world/room1/"), some("/world"));
    assert_eq!(parent("/world//room1"), some("/world"));
    assert_eq!(parent("/world"), some("/"));
    assert_eq!(parent("world"), some(""));
    assert_eq!(parent("/"), None);
    assert_eq!(parent(""), None);
}

#[test]
fn hidden_entries_start_with_a_dot() {
    assert!(is_hidden("/world/.door"));
    assert!(is_hidden(".git"));
    assert!(is_hidden("/world/.hidden/"));
    assert!(!is_hidden("/world/a.png"));
    assert!(!is_hidden("/.world/a.png"));
    assert!(!is_hidden("/world/room1/.."));
    assert!(!is_hidden(""));
}

#[test]
fn extensions_trait_on_owned_paths() {
    let path = String::from("/world/door.tar.xz.aes");
    assert_eq!(path.extensions(), some("tar.xz.aes"));
    assert_eq!(path.file_stem_no_extensions(), some("door"));
    assert_eq!(path.no_extensions(), "/world/door");
    let bare = String::from("/world/room1");
    assert_eq!(bare.extensions(), None);
    assert_eq!(bare.no_extensions(), "/world/room1");
}
