use ledger_archive::block_path::{join_path, BlockPath};
use ledger_archive::error::ReqwestTransactionsFetcherError;
use ledger_archive::text::{decimal_text, same_bytes, same_text};
use std::path::Path;

fn path(names: &[&str]) -> Option<BlockPath> {
    BlockPath::new(names.iter().map(|name| name.to_string()).collect())
}

#[test]
fn decimals() {
    for n in [0, 7, 10, 99, 100, 10000, 1234567890, u64::MAX] {
        assert_eq!(decimal_text(n), n.to_string());
    }
}

#[test]
fn texts_and_bytes_are_compared() {
    assert!(same_bytes(&vec![1, 2], &vec![1, 2]));
    assert!(!same_bytes(&vec![1, 2], &vec![1, 3]));
    assert!(!same_bytes(&vec![1, 2], &vec![1]));
    assert!(same_text("file", "file"));
    assert!(!same_text("file", "File"));
}

#[test]
fn paths_join_as_in_std() {
    for base in ["", "/", "a", "a/", "/a/b", "."] {
        for relative in ["b", "b/c", "", "/b"] {
            assert_eq!(
                join_path(base, relative),
                Path::new(base).join(relative).to_str().unwrap()
            );
        }
    }
}

#[test]
fn block_paths_split_as_in_std() {
    let p = path(&["00", "0f", "x.pb"]).unwrap();
    assert_eq!(p.text(), "00/0f/x.pb");
    for root in ["", "/", "bucket", "bucket/", "/srv/archive"] {
        let dest = Path::new(root).join("00/0f/x.pb");
        assert_eq!(p.file_under(root), dest.to_str().unwrap());
        assert_eq!(p.directory_under(root), dest.parent().unwrap().to_str().unwrap());
        assert_eq!(p.file_name(), dest.file_name().unwrap().to_str().unwrap());
        assert_eq!(
            p.file_under(root),
            p.directory_under(root) + "/" + &p.file_name()
        );
    }
}

#[test]
fn only_files_in_directories_are_block_paths() {
    assert!(path(&["00", "x.pb"]).is_some());
    assert!(path(&[]).is_none());
    assert!(path(&["x.pb"]).is_none());
    assert!(path(&["", "x.pb"]).is_none());
    assert!(path(&["00", ""]).is_none());
    assert!(path(&["00/01", "x.pb"]).is_none());
    assert!(path(&[".", "x.pb"]).is_none());
    assert!(path(&["00", ".."]).is_none());
    assert!(path(&["...", ".x"]).is_some());
}

#[test]
fn errors_describe_themselves() {
    type E = ReqwestTransactionsFetcherError;
    let text = |s: &str| s.to_string();
    assert_eq!(
        E::UrlParse(text("u"), text("e")).message(),
        "Url parse error on u: e"
    );
    assert_eq!(
        E::ReqwestError(text("u"), text("e")).message(),
        "reqwest error on u: e"
    );
    assert_eq!(E::IO(text("p"), text("e")).message(), "IO error on p: e");
    assert_eq!(
        E::InvalidBlockReceived(text("u"), text("r")).message(),
        "Received an invalid block from u: r"
    );
    assert_eq!(E::BlockNotFound(text("u")).message(), "Block not found at u");
    assert_eq!(E::NoUrlsConfigured.message(), "No URLs configured.");
    assert_eq!(
        E::from_reqwest_error(Some("u"), "e"),
        E::ReqwestError(text("u"), text("e"))
    );
    assert_eq!(
        E::from_reqwest_error(None, "e"),
        E::ReqwestError(text(""), text("e"))
    );
}

#[test]
fn different_paths_are_different_files() {
    let all = [
        &["00", "0.pb"][..],
        &["00", "1.pb"],
        &["0", "00.pb"],
        &["00", "0", "pb"],
        &["000", ".pb"],
    ];
    for root in ["", "/", "/srv", "/srv/"] {
        for (i, a) in all.iter().enumerate() {
            for (j, b) in all.iter().enumerate() {
                let a_file = path(a).unwrap().file_under(root);
                let b_file = path(b).unwrap().file_under(root);
                assert_eq!(a_file == b_file, i == j);
            }
        }
    }
}
