use std::path::PathBuf;

use whitematter::file::FileProcessor;
use whitematter::lua::{package_lines, LuaRocks};

#[test]
fn package_lines_splits_like_lines() {
    assert_eq!(package_lines("lpeg 1.0\r\nluasocket 3.1\nlfs"), vec!["lpeg 1.0", "luasocket 3.1", "lfs"]);
    assert_eq!(package_lines("one\n"), vec!["one"]);
    assert_eq!(package_lines("\n\n"), vec!["", ""]);
    assert_eq!(package_lines("tail\r"), vec!["tail\r"]);
    assert!(package_lines("").is_empty());
    let sample = "a\r\n\r\nb\rc\n";
    let expected: Vec<String> = sample.lines().map(|l| l.to_string()).collect();
    assert_eq!(package_lines(sample), expected);
}

#[test]
fn image_info_is_the_fixed_description() {
    assert_eq!(FileProcessor::extract_image_info("photo.png"), Ok("Image description placeholder".to_string()));
}

#[test]
fn luarocks_keeps_its_path() {
    let rocks = LuaRocks::new(PathBuf::from("/usr/bin/luarocks"));
    assert_eq!(rocks.path(), &PathBuf::from("/usr/bin/luarocks"));
}
