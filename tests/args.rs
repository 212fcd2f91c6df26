use std::path::PathBuf;
use uefi_run::{parse_add_file, AddFileError, Args};

#[test]
fn test_parse_add_file_args() {
    let mut args = Args::default();
    args.add_file = vec![
        "/full/path/to/outer:/full/path/to/inner".to_string(),
        "/full/path/to/outer:inner".to_string(),
        "outer:inner".to_string(),
        "/full/path/to/outer".to_string(),
        "outer".to_string(),
    ];
    let expected = vec![
        (PathBuf::from("/full/path/to/outer"), PathBuf::from("/full/path/to/inner")),
        (PathBuf::from("/full/path/to/outer"), PathBuf::from("inner")),
        (PathBuf::from("outer"), PathBuf::from("inner")),
        (PathBuf::from("/full/path/to/outer"), PathBuf::from("outer")),
        (PathBuf::from("outer"), PathBuf::from("outer")),
    ];
    let actual = args
        .parse_add_file_args()
        .into_iter()
        .map(|x| x.unwrap())
        .map(|(outer, inner)| (PathBuf::from(outer), PathBuf::from(inner)))
        .collect::<Vec<_>>();
    assert_eq!(actual, expected);
}

#[test]
fn add_file_splits_at_first_colon() {
    assert_eq!(
        parse_add_file("a:b:c"),
        Ok(("a".to_string(), "b:c".to_string()))
    );
    assert_eq!(parse_add_file(":x"), Ok((String::new(), "x".to_string())));
}

#[test]
fn add_file_name_skips_trailing_separators_and_dots() {
    assert_eq!(parse_add_file("dir/file/"), Ok(("dir/file/".to_string(), "file".to_string())));
    assert_eq!(parse_add_file("dir/file/."), Ok(("dir/file/.".to_string(), "file".to_string())));
    assert_eq!(parse_add_file("./file"), Ok(("./file".to_string(), "file".to_string())));
}

#[test]
fn add_file_without_name_is_rejected() {
    assert_eq!(parse_add_file(""), Err(AddFileError::InvalidOuterFile));
    assert_eq!(parse_add_file("/"), Err(AddFileError::InvalidOuterFile));
    assert_eq!(parse_add_file("."), Err(AddFileError::InvalidOuterFile));
    assert_eq!(parse_add_file("a/.."), Err(AddFileError::InvalidOuterFile));
}

#[test]
fn add_file_agrees_with_std_file_name() {
    for s in ["a/b", "a//b", "/a/b/", "a/./b/.", "./", "..", "x/../y", "né/ü"] {
        let expected = std::path::Path::new(s).file_name().map(|n| n.to_str().unwrap().to_string());
        let actual = parse_add_file(s).ok().map(|(_, inner)| inner);
        assert_eq!(actual, expected, "{}", s);
    }
}
