use ledger_archive::archive::{
    ArchiveBlock, ArchiveBlockData, BlockTexts, DecodedArchiveBlock, DecodedArchiveBlockV1,
};
use ledger_archive::block::{Block, BlockContents, BlockSignature};
use ledger_archive::block_path::BlockPath;
use ledger_archive::chain::ComputedId;
use ledger_archive::fetcher::ReqwestTransactionsFetcher;
use ledger_archive::steps::{BlockPaths, FetchStep};
use ledger_archive::transfer::{fetch_source, FetchSource};
use ledger_archive::writer::{BlockWriter, LedgerBlock, LocalBlockWriter, RunPaths};
use std::collections::HashMap;

fn id(index: u64) -> Vec<u8> {
    index.to_be_bytes().to_vec()
}

fn ledger_block(index: u64) -> LedgerBlock {
    (
        Block {
            id: id(index),
            version: 1,
            parent_id: id(index.wrapping_sub(1)),
            index,
            cumulative_txo_count: index,
            root_element: vec![3],
            contents_hash: id(index + 1),
        },
        BlockContents { data: id(index) },
        Some(BlockSignature { data: id(index) }),
    )
}

fn path(names: &[&str]) -> BlockPath {
    BlockPath::new(names.iter().map(|name| name.to_string()).collect()).unwrap()
}

/// Reads an archived block back, with stand-ins for the hash and the signature.
fn decoded(archive: ArchiveBlock) -> DecodedArchiveBlock {
    let v1 = archive.v1.unwrap();
    let signed = v1.signature.as_ref().map(|s| s.data == v1.block.id);
    let number = u64::from_be_bytes(v1.block_contents.data.clone().try_into().unwrap());
    DecodedArchiveBlock {
        v1: Some(DecodedArchiveBlockV1 {
            shown: BlockTexts {
                block: format!("{:?}", v1.block),
                id: format!("{:?}", v1.block.id),
                block_contents: format!("{:?}", v1.block_contents),
            },
            block: Ok(v1.block),
            block_contents: Ok(v1.block_contents),
            signature: v1.signature.map(Ok),
            signature_check: match signed {
                Some(false) => Err("Forged".to_string()),
                _ => Ok(()),
            },
            contents_hash: id(number + 1),
        }),
    }
}

#[test]
fn local_run_is_read_back_from_where_it_was_written() {
    let blocks: Vec<LedgerBlock> = (10000..20000).map(ledger_block).collect();
    let writer = LocalBlockWriter::new("/srv/archive".to_string());
    let merged = &["merged-10000", "00", "b.pb"];
    let write = writer.write_multiple_blocks(
        &RunPaths {
            first_block: path(&["00", "b.pb"]),
            merged: path(merged),
        },
        &blocks,
    );

    let mut fetcher =
        ReqwestTransactionsFetcher::<()>::new(vec!["file:///srv/archive".to_string()]).unwrap();
    let paths = BlockPaths {
        block: path(&["00", "b.pb"]),
        merged_10000: path(merged),
        merged_1000: path(&["merged-1000", "00", "b.pb"]),
        merged_100: path(&["merged-100", "00", "b.pb"]),
    };
    let url = match fetcher.get_block_contents(&blocks[0].0, &paths) {
        FetchStep::FetchMergedBlocks { url, .. } => url,
        other => panic!("{:?}", other),
    };
    assert_eq!(fetch_source(&url), FetchSource::File(write.path));

    let archived = write.archive.into_iter().map(decoded).collect();
    let unlinked = fetcher.blocks_from_url(&url, Ok(archived)).unwrap();
    let ids = unlinked
        .id_inputs()
        .iter()
        .map(|input| ComputedId {
            id: id(u64::from_be_bytes(input.parent_id.clone().try_into().unwrap()) + 1),
            shown: "id".to_string(),
        })
        .collect();
    let read = unlinked.check(&ids).unwrap();
    assert_eq!(read.len(), blocks.len());
    for (data, (block, block_contents, signature)) in read.into_iter().zip(blocks) {
        assert_eq!(
            data,
            ArchiveBlockData {
                block,
                block_contents,
                signature,
            }
        );
    }
}

#[test]
fn local_block_is_read_back_from_where_it_was_written() {
    let (block, contents, signature) = ledger_block(7);
    let writer = LocalBlockWriter::new("/srv/archive/".to_string());
    let write = writer.write_single_block(&path(&["00", "b.pb"]), &block, &contents, &signature);
    let fetcher =
        ReqwestTransactionsFetcher::<()>::new(vec!["file:///srv/archive".to_string()]).unwrap();
    let url = fetcher.origin_block_url(&path(&["00", "b.pb"])).unwrap().unwrap();
    assert_eq!(fetch_source(&url), FetchSource::File(write.path));
    let read = fetcher.block_from_url(&url, Ok(decoded(write.archive))).unwrap();
    assert_eq!((read.block, read.block_contents, read.signature), ledger_block(7));
}

#[test]
fn writes_to_different_paths_do_not_disturb_each_other() {
    let writer = LocalBlockWriter::new("/srv".to_string());
    let write = |names: &[&str], index| {
        let (block, contents, signature) = ledger_block(index);
        let write = writer.write_single_block(&path(names), &block, &contents, &signature);
        (write.path, write.archive)
    };
    let mut one = HashMap::new();
    let mut other = HashMap::new();
    one.extend([write(&["00", "1.pb"], 1), write(&["00", "2.pb"], 2)]);
    other.extend([write(&["00", "2.pb"], 2), write(&["00", "1.pb"], 1)]);
    assert_eq!(one, other);
    assert_eq!(one.len(), 2);
    let (file, archive) = write(&["00", "1.pb"], 3);
    one.insert(file, archive);
    assert_eq!(one.len(), 2);
    assert_eq!(one["/srv/00/1.pb"].v1.as_ref().unwrap().block.index, 3);
}
