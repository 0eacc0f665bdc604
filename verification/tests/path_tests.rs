use hoarder::path::{
    directory_of, extension_of, join, move_file, push_extension_or, MoveError, MoveStep,
    RenamePlan,
};
use hoarder::text::{chars_of, string_of};
use std::path::Path;

fn extension(name: &str) -> Option<String> {
    let chars = chars_of(name);
    extension_of(&chars).map(|start| chars[start..].iter().collect())
}

fn plan(source: &str, destination: &str) -> RenamePlan {
    RenamePlan { source: source.to_string(), destination: destination.to_string() }
}

#[test]
fn extensions_of_names() {
    assert_eq!(extension("a.txt"), Some("txt".to_string()));
    assert_eq!(extension("a.tar.gz"), Some("gz".to_string()));
    assert_eq!(extension("a."), Some("".to_string()));
    assert_eq!(extension("a"), None);
    assert_eq!(extension(".bashrc"), None);
    assert_eq!(extension(".bashrc.bak"), Some("bak".to_string()));
    assert_eq!(extension(".."), None);
    assert_eq!(extension("..."), Some("".to_string()));
    assert_eq!(extension(""), None);
}

#[test]
fn extensions_agree_with_std() {
    let names = [
        "a.txt", "a.tar.gz", "a.", "a", ".bashrc", ".bashrc.bak", "...", "x..y", ".a.", "é.ü", "a b.c d",
    ];
    for name in names {
        let theirs = Path::new(name).extension().map(|e| e.to_str().unwrap().to_string());
        assert_eq!(extension(name), theirs, "{}", name);
    }
}

#[test]
fn fallback_extension() {
    let mut out = vec!['.'];
    push_extension_or(&mut out, &chars_of("clip.mkv"), "mp4");
    assert_eq!(string_of(&out), ".mkv");
    let mut out = vec!['.'];
    push_extension_or(&mut out, &chars_of("clip"), "mp4");
    assert_eq!(string_of(&out), ".mp4");
}

#[test]
fn joining_a_name_to_a_directory() {
    assert_eq!(join("", "a.txt"), "a.txt");
    assert_eq!(join("dir", "a.txt"), "dir/a.txt");
    assert_eq!(join("dir/", "a.txt"), "dir/a.txt");
    assert_eq!(join("/", "a.txt"), "/a.txt");
    assert_eq!(join("/x/y", "2020"), "/x/y/2020");
    assert_eq!(join(".", "a"), "./a");
}

#[test]
fn joining_agrees_with_std() {
    for dir in ["", "dir", "dir/", "/", "/x/y", ".", "a b/c"] {
        for name in ["a.txt", "2020", "IMG_20230615-02.jpg"] {
            let theirs = Path::new(dir).join(name);
            assert_eq!(join(dir, name), theirs.to_str().unwrap(), "{} {}", dir, name);
        }
    }
}

#[test]
fn directory_of_a_path() {
    assert_eq!(directory_of("a/b/c.txt"), "a/b");
    assert_eq!(directory_of("c.txt"), "");
    assert_eq!(directory_of("/c.txt"), "");
    assert_eq!(directory_of("a/b/"), "a/b");
    assert_eq!(directory_of(""), "");
}

#[test]
fn equal_paths_need_no_move() {
    assert_eq!(move_file(&plan("a/b.txt", "a/b.txt"), true), Ok(MoveStep::Nothing));
    assert_eq!(move_file(&plan("a/b.txt", "a/b.txt"), false), Ok(MoveStep::Nothing));
    assert!(plan("x", "x").is_noop());
    assert!(!plan("x", "y").is_noop());
}

#[test]
fn occupied_destination_is_a_conflict() {
    assert_eq!(move_file(&plan("a/b.txt", "a/c.txt"), true), Err(MoveError::DestinationExists));
}

#[test]
fn free_destination_is_moved_to() {
    assert_eq!(
        move_file(&plan("a/b.mkv", "a/2020/T.(2020)/T.(2020).mkv"), false),
        Ok(MoveStep::Move { directory: "a/2020/T.(2020)".to_string() })
    );
    assert_eq!(
        move_file(&plan("b.txt", "c.txt"), false),
        Ok(MoveStep::Move { directory: "".to_string() })
    );
}
