use ledger_archive::block::{Block, BlockContents, BlockSignature};
use ledger_archive::block_path::{BlockPath, PathQuery};
use ledger_archive::steps::block_path_queries;
use ledger_archive::writer::{
    check_run, run_path_queries, BlockWriter, LedgerBlock, LocalBlockWriter, PutObject, PutStep,
    RunPaths, S3BlockWriter,
};

fn ledger_block(index: u64) -> LedgerBlock {
    (
        Block {
            id: vec![index as u8],
            version: 1,
            parent_id: vec![],
            index,
            cumulative_txo_count: 0,
            root_element: vec![],
            contents_hash: vec![],
        },
        BlockContents {
            data: vec![index as u8],
        },
        Some(BlockSignature {
            data: vec![1, index as u8],
        }),
    )
}

fn run(indices: &[u64]) -> Vec<LedgerBlock> {
    indices.iter().map(|i| ledger_block(*i)).collect()
}

fn path(names: &[&str]) -> BlockPath {
    BlockPath::new(names.iter().map(|name| name.to_string()).collect()).unwrap()
}

fn run_paths() -> RunPaths {
    RunPaths {
        first_block: path(&["00", "05", "5.pb"]),
        merged: path(&["merged-3", "00", "05", "5.pb"]),
    }
}

#[test]
fn runs_are_consecutive_and_longer_than_one() {
    assert!(check_run(&run(&[5, 6, 7])));
    assert!(check_run(&run(&[u64::MAX - 1, u64::MAX])));
    assert!(!check_run(&run(&[])));
    assert!(!check_run(&run(&[5])));
    assert!(!check_run(&run(&[5, 7])));
    assert!(!check_run(&run(&[5, 6, 6])));
    assert!(!check_run(&run(&[u64::MAX, 0])));
}

#[test]
fn single_blocks_lie_at_their_path() {
    let (block, contents, signature) = ledger_block(5);
    let s3 = S3BlockWriter::new("bucket/dir".to_string(), "us-west-1".to_string());
    assert_eq!(s3.region(), "us-west-1");
    let p = path(&["00", "05", "5.pb"]);
    let write = s3.write_single_block(&p, &block, &contents, &signature);
    assert_eq!(write.directory, "bucket/dir/00/05");
    assert_eq!(write.file_name, "5.pb");
    let v1 = write.archive.v1.unwrap();
    assert_eq!((v1.block, v1.block_contents, v1.signature), ledger_block(5));

    let local = LocalBlockWriter::new("/srv".to_string());
    let write = local.write_single_block(&p, &block, &contents, &None);
    assert_eq!(write.directory, "/srv/00/05");
    assert_eq!(write.path, "/srv/00/05/5.pb");
    assert_eq!(write.archive.v1.unwrap().signature, None);
}

#[test]
fn runs_lie_in_a_directory_for_their_size() {
    let blocks = run(&[5, 6, 7]);
    let s3 = S3BlockWriter::new("/root".to_string(), "".to_string());
    let local = LocalBlockWriter::new("/root".to_string());
    let first = s3.write_multiple_blocks(&run_paths(), &blocks);
    let second = local.write_multiple_blocks(&run_paths(), &blocks);
    assert_eq!(first.path, "/root/merged-3/00/05/5.pb");
    assert_eq!(first.path, second.path);
    assert_eq!(first.directory, "/root/merged-3/00/05");
    assert_eq!(first.directory, second.directory);
    assert_eq!(first.file_name, "5.pb");
    assert_eq!(first.file_name, second.file_name);
    assert_eq!(first.archive, second.archive);
    let indices: Vec<u64> = first
        .archive
        .iter()
        .map(|archived| archived.v1.as_ref().unwrap().block.index)
        .collect();
    assert_eq!(indices, vec![5, 6, 7]);
}

#[test]
fn objects_are_stored_for_everyone_to_read() {
    let s3 = S3BlockWriter::new("".to_string(), "".to_string());
    assert_eq!(
        s3.write_bytes_to_s3("bucket/00", "5.pb", &vec![1, 2, 3]),
        PutObject {
            bucket: "bucket/00".to_string(),
            key: "5.pb".to_string(),
            body: vec![1, 2, 3],
            acl: "public-read".to_string(),
        }
    );
    assert_eq!(s3.after_attempt(&Ok(())), PutStep::Stored);
    assert_eq!(s3.after_attempt(&Err("timeout".to_string())), PutStep::Retry);
}

#[test]
fn paths_are_asked_for_by_size_and_first_block() {
    let queries = run_path_queries(&run(&[5, 6, 7]));
    assert_eq!(queries.first_block, PathQuery::Block { index: 5 });
    assert_eq!(queries.merged, PathQuery::Run { size: 3, first: 5 });
    let queries = block_path_queries(20000);
    assert_eq!(queries.block, PathQuery::Block { index: 20000 });
    let run = |size| PathQuery::Run { size, first: 20000 };
    assert_eq!(queries.merged_10000, run(10000));
    assert_eq!(queries.merged_1000, run(1000));
    assert_eq!(queries.merged_100, run(100));
}

#[test]
fn readers_and_writers_ask_for_the_same_path() {
    let blocks: Vec<LedgerBlock> = (30000..40000).map(ledger_block).collect();
    assert!(check_run(&blocks));
    let written = run_path_queries(&blocks);
    let read = block_path_queries(30000);
    assert_eq!(written.merged, read.merged_10000);
    assert_eq!(written.first_block, read.block);
}
