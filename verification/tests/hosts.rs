use std::path::{Path, PathBuf};

use vavlt::classify::AssetClass;
use vavlt::hosts::{
    app_support_for, data_dir_for, join, picked_dir, scanned_item, starts_with, FolderSource,
    PhotoSource,
};

const PATHS: [&str; 22] = [
    "",
    "/",
    "//",
    ".",
    "./",
    "..",
    "a",
    "a/",
    "a/b",
    "a//b",
    "a/./b",
    "./a/b",
    "/a",
    "/a/",
    "/a/b",
    "/a/b/c",
    "/a/./b",
    "/ab",
    "/a/bc",
    "/a/../b",
    "a/.",
    "/tmp/vavlt",
];

#[test]
fn components_lead_as_the_standard_library_says() {
    for path in PATHS {
        for base in PATHS {
            assert_eq!(
                starts_with(path, base),
                Path::new(path).starts_with(base),
                "{path:?} starts with {base:?}"
            );
        }
    }
}

#[test]
fn a_handle_outside_the_root_is_refused() {
    let source = FolderSource::new("/tmp/vavlt-folder".to_string());
    assert_eq!(source.root(), "/tmp/vavlt-folder");
    assert!(source
        .allows("inside.txt", "/tmp/vavlt-folder/inside.txt", "/tmp/vavlt-folder")
        .is_ok());
    let error = source
        .allows("/tmp/vavlt-outside.txt", "/tmp/vavlt-outside.txt", "/tmp/vavlt-folder")
        .expect_err("a path outside the root must be refused");
    assert!(error.contains("outside the folder"));
    assert_eq!(error, "/tmp/vavlt-outside.txt is outside the folder that was handed over");
}

#[test]
fn a_sibling_sharing_a_prefix_is_outside() {
    let source = FolderSource::new("/photos".to_string());
    assert!(source.allows("x", "/photos-old/x.jpg", "/photos").is_err());
    assert!(source.allows("x", "/photos/2024/x.jpg", "/photos/").is_ok());
}

#[test]
fn only_the_pickers_copies_are_served() {
    let source = PhotoSource::new();
    let picked = picked_dir("/home/me/.local/share/vavlt-ios");
    assert_eq!(picked, "/home/me/.local/share/vavlt-ios/picked");
    assert!(source.allows("/home/me/.local/share/vavlt-ios/picked/a.jpg", &picked).is_ok());
    let error = source
        .allows("/home/me/Pictures/a.jpg", &picked)
        .expect_err("not a copy");
    assert_eq!(error, "/home/me/Pictures/a.jpg is not one of the files the picker handed over");
}

#[test]
fn joining_matches_pathbuf() {
    for base in ["", "/", "a", "a/", "/x/y", "/x/y/"] {
        let expected = PathBuf::from(base).join("picked");
        assert_eq!(join(base, "picked"), expected.to_string_lossy(), "{base:?}");
        assert_eq!(picked_dir(base), expected.to_string_lossy(), "{base:?}");
    }
}

#[test]
fn an_empty_file_is_not_selected() {
    assert!(scanned_item("/a/empty.jpg".to_string(), "empty.jpg".to_string(), 0).is_none());
    let item = scanned_item("/a/b.JPG".to_string(), "b.JPG".to_string(), 12).expect("kept");
    assert_eq!(item.handle, "/a/b.JPG");
    assert_eq!(item.name, "b.JPG");
    assert_eq!(item.bytes, 12);
    assert_eq!(item.class, AssetClass::Jpeg);
}

#[test]
fn data_lives_under_xdg_then_home_then_temp() {
    assert_eq!(data_dir_for(Some("/x/data"), Some("/home/me"), "/tmp"), "/x/data/vavlt");
    assert_eq!(data_dir_for(None, Some("/home/me"), "/tmp"), "/home/me/.local/share/vavlt");
    assert_eq!(data_dir_for(None, None, "/tmp"), "/tmp/vavlt");
    assert_eq!(data_dir_for(None, Some("/home/me/"), "/tmp"), "/home/me/.local/share/vavlt");
    assert_eq!(app_support_for(Some("/home/me"), "/tmp"), "/home/me/.local/share/vavlt-ios");
    assert_eq!(app_support_for(None, "/tmp/"), "/tmp/vavlt-ios");
    let expected = PathBuf::from("/home/me").join(".local/share/vavlt");
    assert_eq!(data_dir_for(None, Some("/home/me"), "/t"), expected.to_string_lossy());
}

#[test]
fn a_joined_name_lies_under_its_base() {
    for base in PATHS {
        for name in ["picked", "a.jpg", "..", "x y"] {
            let joined = join(base, name);
            assert!(starts_with(&joined, base), "{joined:?} under {base:?}");
            assert_eq!(Path::new(&joined).components().count(), Path::new(base).components().count() + 1);
        }
    }
}
