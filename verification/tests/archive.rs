use ledger_archive::archive::{
    create_archive_block, ArchiveBlockData, BlockTexts, DecodedArchiveBlock,
    DecodedArchiveBlockV1,
};
use ledger_archive::archive_url::ArchiveUrl;
use ledger_archive::block::{Block, BlockContents, BlockSignature};
use ledger_archive::chain::{BlockIdInput, ComputedId, UnlinkedBlocks};
use ledger_archive::error::ReqwestTransactionsFetcherError;

fn url() -> ArchiveUrl {
    ArchiveUrl {
        text: "http://archive.test/00/0.pb".to_string(),
        scheme: "http".to_string(),
        host_and_path: "archive.test/00/0.pb".to_string(),
    }
}

fn block(index: u64) -> Block {
    Block {
        id: vec![1, index as u8],
        version: 1,
        parent_id: vec![1, index.wrapping_sub(1) as u8],
        index,
        cumulative_txo_count: 10 * index,
        root_element: vec![7, 8],
        contents_hash: vec![9, index as u8],
    }
}

fn contents(index: u64) -> BlockContents {
    BlockContents {
        data: vec![100, index as u8],
    }
}

fn signature() -> BlockSignature {
    BlockSignature { data: vec![42] }
}

fn texts(index: u64) -> BlockTexts {
    BlockTexts {
        block: format!("<block {}>", index),
        id: format!("<id {}>", index),
        block_contents: format!("<contents {}>", index),
    }
}

fn computed(id: &[u8]) -> ComputedId {
    ComputedId {
        id: id.to_vec(),
        shown: format!("<computed {}>", id.len()),
    }
}

fn decoded_v1(index: u64) -> DecodedArchiveBlockV1 {
    DecodedArchiveBlockV1 {
        block: Ok(block(index)),
        block_contents: Ok(contents(index)),
        signature: Some(Ok(signature())),
        signature_check: Ok(()),
        contents_hash: vec![9, index as u8],
        shown: texts(index),
    }
}

fn check(v1: DecodedArchiveBlockV1) -> Result<ArchiveBlockData, ReqwestTransactionsFetcherError> {
    ArchiveBlockData::try_from((&url(), &DecodedArchiveBlock { v1: Some(v1) }))
}

fn refusal(v1: DecodedArchiveBlockV1) -> String {
    match check(v1) {
        Err(ReqwestTransactionsFetcherError::InvalidBlockReceived(place, reason)) => {
            assert_eq!(place, "http://archive.test/00/0.pb");
            reason
        }
        other => panic!("not refused: {:?}", other),
    }
}

#[test]
fn archived_block_holds_all_parts() {
    let archived = create_archive_block(&block(3), &contents(3), &Some(signature()));
    let v1 = archived.v1.unwrap();
    assert_eq!(v1.block, block(3));
    assert_eq!(v1.block_contents, contents(3));
    assert_eq!(v1.signature, Some(signature()));
    let unsigned = create_archive_block(&block(3), &contents(3), &None);
    assert_eq!(unsigned.v1.unwrap().signature, None);
}

#[test]
fn what_was_written_is_read_back() {
    let v1 = create_archive_block(&block(3), &contents(3), &Some(signature())).v1.unwrap();
    let read = check(DecodedArchiveBlockV1 {
        block: Ok(v1.block),
        block_contents: Ok(v1.block_contents),
        signature: v1.signature.map(Ok),
        signature_check: Ok(()),
        contents_hash: vec![9, 3],
        shown: texts(3),
    });
    assert_eq!(
        read,
        Ok(ArchiveBlockData {
            block: block(3),
            block_contents: contents(3),
            signature: Some(signature()),
        })
    );
}

#[test]
fn block_without_a_version_is_refused() {
    let r = ArchiveBlockData::try_from((&url(), &DecodedArchiveBlock { v1: None }));
    assert_eq!(
        r,
        Err(ReqwestTransactionsFetcherError::InvalidBlockReceived(
            "http://archive.test/00/0.pb".to_string(),
            "v1 block not present".to_string(),
        ))
    );
}

#[test]
fn block_that_does_not_convert_is_refused() {
    let mut v1 = decoded_v1(1);
    v1.block = Err("Bad".to_string());
    v1.block_contents = Err("Worse".to_string());
    assert_eq!(refusal(v1), "Block conversion failed: Bad");
}

#[test]
fn contents_that_do_not_convert_are_refused() {
    let mut v1 = decoded_v1(1);
    v1.block_contents = Err("Bad".to_string());
    v1.signature = Some(Err("Worse".to_string()));
    assert_eq!(refusal(v1), "Block contents conversion failed: Bad");
}

#[test]
fn signature_that_does_not_convert_is_refused() {
    let mut v1 = decoded_v1(1);
    v1.signature = Some(Err("Bad".to_string()));
    v1.signature_check = Err("Worse".to_string());
    assert_eq!(refusal(v1), "Invalid block signature: Bad");
}

#[test]
fn signature_of_another_block_is_refused() {
    let mut v1 = decoded_v1(1);
    v1.signature_check = Err("Bad".to_string());
    v1.contents_hash = vec![];
    assert_eq!(refusal(v1), "Unable to verify block signature: Bad");
}

#[test]
fn check_of_a_missing_signature_is_not_read() {
    let mut v1 = decoded_v1(1);
    v1.signature = None;
    v1.signature_check = Err("Bad".to_string());
    assert_eq!(check(v1).unwrap().signature, None);
}

#[test]
fn contents_with_another_hash_are_refused() {
    let mut v1 = decoded_v1(1);
    v1.contents_hash = vec![9, 2];
    assert_eq!(
        refusal(v1),
        "Invalid block contents hash. Block: <block 1>, BlockContents: <contents 1>"
    );
}

#[test]
fn blocks_are_equal_by_every_field() {
    assert!(block(1) == block(1));
    assert!(block(1) == block(1).clone());
    let mut b = block(1);
    b.id = vec![];
    assert!(b != block(1));
    let mut b = block(1);
    b.version = 2;
    assert!(b != block(1));
    let mut b = block(1);
    b.parent_id.push(0);
    assert!(b != block(1));
    let mut b = block(1);
    b.index = 2;
    assert!(b != block(1));
    let mut b = block(1);
    b.cumulative_txo_count += 1;
    assert!(b != block(1));
    let mut b = block(1);
    b.root_element[0] = 0;
    assert!(b != block(1));
    let mut b = block(1);
    b.contents_hash[0] = 0;
    assert!(b != block(1));
}

fn run(indices: &[u64]) -> Vec<DecodedArchiveBlock> {
    indices
        .iter()
        .map(|i| DecodedArchiveBlock {
            v1: Some(decoded_v1(*i)),
        })
        .collect()
}

#[test]
fn ids_are_computed_from_the_block_and_its_parent() {
    let mut archived = run(&[4, 5, 6]);
    // The identifier of the parent counts, not the one that the block names.
    archived[1].v1.as_mut().unwrap().block.as_mut().unwrap().parent_id = vec![77];
    let unlinked = UnlinkedBlocks::new(&url(), &archived).unwrap();
    assert_eq!(
        unlinked.id_inputs(),
        vec![
            BlockIdInput {
                version: 1,
                parent_id: vec![1, 4],
                index: 5,
                cumulative_txo_count: 50,
                root_element: vec![7, 8],
                contents_hash: vec![9, 5],
            },
            BlockIdInput {
                version: 1,
                parent_id: vec![1, 5],
                index: 6,
                cumulative_txo_count: 60,
                root_element: vec![7, 8],
                contents_hash: vec![9, 6],
            },
        ]
    );
}

#[test]
fn linked_run_is_accepted() {
    let unlinked = UnlinkedBlocks::new(&url(), &run(&[4, 5, 6])).unwrap();
    let blocks = unlinked.check(&vec![computed(&[1, 5]), computed(&[1, 6])]).unwrap();
    let indices: Vec<u64> = blocks.iter().map(|data| data.block.index).collect();
    assert_eq!(indices, vec![4, 5, 6]);
}

#[test]
fn short_runs_have_no_links() {
    let empty = UnlinkedBlocks::new(&url(), &run(&[])).unwrap();
    assert_eq!(empty.id_inputs(), vec![]);
    assert_eq!(empty.check(&vec![]).unwrap(), vec![]);
    let single = UnlinkedBlocks::new(&url(), &run(&[9])).unwrap();
    assert_eq!(single.id_inputs(), vec![]);
    assert_eq!(single.check(&vec![]).unwrap().len(), 1);
}

#[test]
fn first_broken_link_is_reported() {
    let unlinked = UnlinkedBlocks::new(&url(), &run(&[4, 5, 6])).unwrap();
    let expected = vec![computed(&[2, 5, 5]), computed(&[2, 6])];
    assert_eq!(
        unlinked.check(&expected),
        Err(ReqwestTransactionsFetcherError::InvalidBlockReceived(
            "http://archive.test/00/0.pb".to_string(),
            "block id mismatch for block #5 (<computed 3> != <id 5>)".to_string(),
        ))
    );
    let unlinked = UnlinkedBlocks::new(&url(), &run(&[4, 5, 6])).unwrap();
    match unlinked.check(&vec![computed(&[1, 5]), computed(&[])]) {
        Err(ReqwestTransactionsFetcherError::InvalidBlockReceived(_, reason)) => {
            assert_eq!(reason, "block id mismatch for block #6 (<computed 0> != <id 6>)");
        }
        other => panic!("not refused: {:?}", other),
    }
}

#[test]
fn runs_are_read_back_as_written() {
    let blocks = UnlinkedBlocks::new(&url(), &run(&[4, 5])).unwrap();
    let read = blocks.check(&vec![computed(&[1, 5])]).unwrap();
    for (i, data) in read.into_iter().enumerate() {
        let index = 4 + i as u64;
        assert_eq!(data.block, block(index));
        assert_eq!(data.block_contents, contents(index));
        assert_eq!(data.signature, Some(signature()));
    }
    // A signature of another block spoils the run.
    let mut archived = run(&[4, 5]);
    archived[0].v1.as_mut().unwrap().signature_check = Err("Bad".to_string());
    match UnlinkedBlocks::new(&url(), &archived) {
        Err(ReqwestTransactionsFetcherError::InvalidBlockReceived(_, reason)) => {
            assert_eq!(reason, "Unable to verify block signature: Bad");
        }
        other => panic!("not refused: {:?}", other),
    }
}

#[test]
fn first_refused_block_of_a_run_is_reported() {
    let mut archived = run(&[4, 5, 6]);
    archived[1].v1 = None;
    archived[2].v1.as_mut().unwrap().block = Err("Bad".to_string());
    match UnlinkedBlocks::new(&url(), &archived) {
        Err(ReqwestTransactionsFetcherError::InvalidBlockReceived(_, reason)) => {
            assert_eq!(reason, "v1 block not present");
        }
        other => panic!("not refused: {:?}", other),
    }
}
