use ledger_archive::archive::ArchiveBlockData;
use ledger_archive::block::{Block, BlockContents};
use ledger_archive::cache::BlockCache;

fn data(id: u8, contents: u8) -> ArchiveBlockData {
    ArchiveBlockData {
        block: Block {
            id: vec![id],
            version: 1,
            parent_id: vec![],
            index: id as u64,
            cumulative_txo_count: 0,
            root_element: vec![],
            contents_hash: vec![],
        },
        block_contents: BlockContents {
            data: vec![contents],
        },
        signature: None,
    }
}

#[test]
fn put_is_popped_once() {
    let mut cache = BlockCache::new(2);
    cache.put(vec![1], data(1, 10));
    assert_eq!(cache.len(), 1);
    assert_eq!(cache.pop(&vec![2]), None);
    assert_eq!(cache.peek(&vec![1]), Some(&data(1, 10)));
    assert_eq!(cache.peek(&vec![2]), None);
    assert_eq!(cache.pop(&vec![1]), Some(data(1, 10)));
    assert_eq!(cache.pop(&vec![1]), None);
    assert_eq!(cache.peek(&vec![1]), None);
    assert_eq!(cache.len(), 0);
}

#[test]
fn oldest_makes_room() {
    let mut cache = BlockCache::new(2);
    cache.put(vec![1], data(1, 10));
    cache.put(vec![2], data(2, 20));
    cache.put(vec![3], data(3, 30));
    assert_eq!(cache.len(), 2);
    assert_eq!(cache.pop(&vec![1]), None);
    assert_eq!(cache.pop(&vec![2]), Some(data(2, 20)));
    assert_eq!(cache.pop(&vec![3]), Some(data(3, 30)));
}

#[test]
fn putting_again_replaces_and_renews() {
    let mut cache = BlockCache::new(2);
    cache.put(vec![1], data(1, 10));
    cache.put(vec![2], data(2, 20));
    cache.put(vec![1], data(1, 11));
    assert_eq!(cache.len(), 2);
    cache.put(vec![3], data(3, 30));
    assert_eq!(cache.pop(&vec![2]), None);
    assert_eq!(cache.pop(&vec![1]), Some(data(1, 11)));
    assert_eq!(cache.pop(&vec![3]), Some(data(3, 30)));
}

#[test]
fn all_blocks_are_put_under_their_ids() {
    let mut cache = BlockCache::new(3);
    cache.put(vec![9], data(9, 90));
    cache.put_all(&vec![data(1, 10), data(2, 20), data(3, 30)]);
    assert_eq!(cache.pop(&vec![9]), None);
    for i in 1u8..4 {
        assert_eq!(cache.pop(&vec![i]), Some(data(i, 10 * i)));
    }
}
