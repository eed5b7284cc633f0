//! The contents that a fetcher hands out have the hash that the block names,
//! whatever was fetched and whatever was asked for before.

use crate::archive::{archive_block_data, ArchiveDataView, DecodedView};
use crate::archive_url::UrlView;
use crate::block::BlockView;
use crate::cache::{lookup, with_all_put, with_put, without, Entries};
use crate::chain::{
    an_accepted_run_is_linked, archive_blocks_data, id_texts, run_received, ComputedIdView,
};
use crate::error::ErrorView;
use crate::fetcher::{
    after_merged, after_request, first_step, fresh, kept_contents, requested_contents,
    source_in_turn, step_after_merged, FetcherView, BLOCKS_CACHE_CAPACITY,
};
use crate::requests::{
    after_calls, answers, only_the_requested_block_answers, outcome, request, runs_left,
    steps_go_on, BlockAnswers, FetcherCall, MergedAnswers,
};
use crate::steps::{PathsView, StepView, BUCKET_COUNT};
use vstd::prelude::*;

verus! {

/// How the hash of contents is computed.
pub type ContentsHash = spec_fn(Seq<u8>) -> Seq<u8>;

/// Whether an archived block was read back with the hash of its contents.
pub open spec fn reports_the_hash(hash: ContentsHash, decoded: Option<DecodedView>) -> bool {
    decoded is Some && decoded->0.block_contents is Ok ==> decoded->0.contents_hash == hash(
        decoded->0.block_contents->Ok_0,
    )
}

/// Whether the contents of a block have the hash that the block names.
pub open spec fn has_its_hash(hash: ContentsHash, data: ArchiveDataView) -> bool {
    data.block.contents_hash == hash(data.block_contents)
}

/// Whether this is so of each of `blocks`.
pub open spec fn all_have_their_hash(hash: ContentsHash, blocks: Seq<ArchiveDataView>) -> bool {
    forall|i: int| 0 <= i < blocks.len() ==> has_its_hash(hash, #[trigger] blocks[i])
}

/// Whether this is so of each block that is kept.
pub open spec fn kept_have_their_hash(hash: ContentsHash, entries: Entries) -> bool {
    forall|i: int| 0 <= i < entries.len() ==> has_its_hash(hash, (#[trigger] entries[i]).1)
}

/// Whether a block that was received from `url` is what the checks made of an
/// archived block. What the block holds is left open.
pub open spec fn block_was_checked(
    hash: ContentsHash,
    url: Seq<char>,
    received: Result<ArchiveDataView, ErrorView>,
) -> bool {
    received is Ok ==> exists|decoded: Option<DecodedView>|
        reports_the_hash(hash, decoded) && received == #[trigger] archive_block_data(url, decoded)
}

/// Whether a run of blocks that was received from `url` is what the checks made
/// of a run of archived blocks. What the run holds is left open.
pub open spec fn run_was_checked(
    hash: ContentsHash,
    url: Seq<char>,
    received: Result<Seq<ArchiveDataView>, ErrorView>,
) -> bool {
    received is Ok ==> exists|
        decoded: Seq<Option<DecodedView>>,
        computed: Seq<ComputedIdView>,
    |
        (forall|i: int| 0 <= i < decoded.len() ==> reports_the_hash(hash, #[trigger] decoded[i]))
            && received == #[trigger] run_received(url, decoded, computed)
}

/// Whether what a call hands to a fetcher is what the checks made of archived
/// blocks.
pub open spec fn call_was_checked(hash: ContentsHash, call: FetcherCall) -> bool {
    match call {
        FetcherCall::Requested { .. } => true,
        FetcherCall::MergedReceived { url, received } => run_was_checked(hash, url, received),
        FetcherCall::BlockReceived { url, received, .. } => block_was_checked(hash, url, received),
    }
}

/// Every block that a fetcher keeps has contents with the hash that it names,
/// after any calls on a fetcher that was new, in any order.
pub proof fn kept_blocks_have_their_hash(
    hash: ContentsHash,
    source_urls: Seq<UrlView>,
    calls: Seq<FetcherCall>,
)
    requires
        forall|i: int| 0 <= i < calls.len() ==> call_was_checked(hash, #[trigger] calls[i]),
    ensures
        kept_have_their_hash(hash, after_calls(fresh(source_urls), calls).cache),
    decreases calls.len(),
{
    if calls.len() > 0 {
        let front = calls.drop_last();
        assert forall|i: int| 0 <= i < front.len() implies call_was_checked(
            hash,
            #[trigger] front[i],
        ) by {
            assert(call_was_checked(hash, calls[i]));
        }
        kept_blocks_have_their_hash(hash, source_urls, front);
        let before = after_calls(fresh(source_urls), front);
        assert(call_was_checked(hash, calls[calls.len() - 1]));
        match calls.last() {
            FetcherCall::Requested { block } => {
                taking_keeps_the_hashes(hash, before.cache, block.id);
            },
            FetcherCall::MergedReceived { url, received } => {
                a_received_run_keeps_the_hashes(hash, before, url, received);
            },
            FetcherCall::BlockReceived { .. } => {},
        }
    }
}

/// Every answer has the hash that the block names: after any calls on a fetcher
/// that was new, the contents that a request for `block` is answered with have
/// the hash that `block` names, be they kept or fetched. This holds of the
/// request as a whole and, where other calls come in between, of each step that
/// can answer it.
pub proof fn every_answer_has_the_hash_that_the_block_names(
    hash: ContentsHash,
    source_urls: Seq<UrlView>,
    calls: Seq<FetcherCall>,
    block: BlockView,
    paths: PathsView,
    merged: MergedAnswers,
    single: BlockAnswers,
)
    requires
        forall|i: int| 0 <= i < calls.len() ==> call_was_checked(hash, #[trigger] calls[i]),
        forall|url: UrlView| run_was_checked(hash, url.text, #[trigger] merged(url)),
        forall|url: UrlView| block_was_checked(hash, url.text, #[trigger] single(url)),
    ensures
        ({
            let fetcher = after_calls(fresh(source_urls), calls);
            let (result, after) = request(fetcher, block, paths, merged, single);
            &&& result matches Ok(contents) ==> hash(contents) == block.contents_hash
            &&& kept_have_their_hash(hash, after.cache)
            &&& first_step(fetcher, block, paths) matches StepView::Done(Ok(contents)) ==> hash(
                contents,
            ) == block.contents_hash
            &&& forall|url: UrlView|
                #![trigger single(url)]
                requested_contents(block, url.text, single(url)) matches Ok(contents) ==> hash(
                    contents,
                ) == block.contents_hash
        }),
{
    let fetcher = after_calls(fresh(source_urls), calls);
    kept_blocks_have_their_hash(hash, source_urls, calls);
    found_blocks_have_their_hash(hash, fetcher.cache, block.id);
    if kept_contents(fetcher.cache, block) is None {
        steps_go_on(source_in_turn(fetcher), paths, block.index, 0);
    }
    assert forall|url: UrlView|
        #![trigger single(url)]
        requested_contents(block, url.text, single(url)) is Ok implies hash(
        requested_contents(block, url.text, single(url))->Ok_0,
    ) == block.contents_hash by {
        a_checked_block_has_its_hash(hash, url.text, single(url));
    }
    if request(fetcher, block, paths, merged, single).0 is Ok {
        let contents = request(fetcher, block, paths, merged, single).0->Ok_0;
        only_the_requested_block_answers(fetcher, block, paths, merged, single);
        if exists|url: UrlView| answers(#[trigger] single(url), block, contents) {
            let url = choose|url: UrlView| answers(#[trigger] single(url), block, contents);
            a_checked_block_has_its_hash(hash, url.text, single(url));
        }
    }
    taking_keeps_the_hashes(hash, fetcher.cache, block.id);
    a_request_keeps_the_hashes(
        hash,
        after_request(fetcher, block),
        block,
        paths,
        first_step(fetcher, block, paths),
        merged,
        single,
    );
}

proof fn a_request_keeps_the_hashes(
    hash: ContentsHash,
    fetcher: FetcherView,
    block: BlockView,
    paths: PathsView,
    step: StepView,
    merged: MergedAnswers,
    single: BlockAnswers,
)
    requires
        kept_have_their_hash(hash, fetcher.cache),
        step matches StepView::FetchMergedBlocks { bucket, .. } ==> 0 <= bucket < BUCKET_COUNT,
        forall|url: UrlView| run_was_checked(hash, url.text, #[trigger] merged(url)),
    ensures
        kept_have_their_hash(hash, outcome(fetcher, block, paths, step, merged, single).1.cache),
    decreases runs_left(step),
{
    if let StepView::FetchMergedBlocks { source, bucket, url } = step {
        steps_go_on(source, paths, block.index, bucket + 1);
        steps_go_on(source, paths, block.index, BUCKET_COUNT as int);
        a_received_run_keeps_the_hashes(hash, fetcher, url.text, merged(url));
        a_request_keeps_the_hashes(
            hash,
            after_merged(fetcher, merged(url)),
            block,
            paths,
            step_after_merged(source, paths, block.index, bucket, merged(url)),
            merged,
            single,
        );
    }
}

proof fn a_checked_block_has_its_hash(
    hash: ContentsHash,
    url: Seq<char>,
    received: Result<ArchiveDataView, ErrorView>,
)
    requires
        block_was_checked(hash, url, received),
    ensures
        received matches Ok(data) ==> has_its_hash(hash, data),
{
}

proof fn checked_blocks_have_their_hash(
    hash: ContentsHash,
    url: Seq<char>,
    decoded: Seq<Option<DecodedView>>,
)
    requires
        forall|i: int| 0 <= i < decoded.len() ==> reports_the_hash(hash, #[trigger] decoded[i]),
        archive_blocks_data(url, decoded) is Ok,
    ensures
        all_have_their_hash(hash, archive_blocks_data(url, decoded)->Ok_0),
    decreases decoded.len(),
{
    if decoded.len() > 0 {
        let front = decoded.drop_last();
        assert forall|i: int| 0 <= i < front.len() implies reports_the_hash(
            hash,
            #[trigger] front[i],
        ) by {
            assert(reports_the_hash(hash, decoded[i]));
        }
        checked_blocks_have_their_hash(hash, url, front);
        assert(reports_the_hash(hash, decoded[decoded.len() - 1]));
    }
}

proof fn a_received_run_keeps_the_hashes(
    hash: ContentsHash,
    fetcher: FetcherView,
    url: Seq<char>,
    received: Result<Seq<ArchiveDataView>, ErrorView>,
)
    requires
        kept_have_their_hash(hash, fetcher.cache),
        run_was_checked(hash, url, received),
    ensures
        kept_have_their_hash(hash, after_merged(fetcher, received).cache),
{
    if let Ok(blocks) = received {
        let (decoded, computed) = choose|
            decoded: Seq<Option<DecodedView>>,
            computed: Seq<ComputedIdView>,
        |
            (forall|i: int|
                0 <= i < decoded.len() ==> reports_the_hash(hash, #[trigger] decoded[i]))
                && received == #[trigger] run_received(url, decoded, computed);
        checked_blocks_have_their_hash(hash, url, decoded);
        an_accepted_run_is_linked(
            url,
            archive_blocks_data(url, decoded)->Ok_0,
            id_texts(decoded),
            computed,
        );
        putting_keeps_the_hashes(hash, fetcher.cache, BLOCKS_CACHE_CAPACITY as nat, blocks);
    }
}

proof fn found_blocks_have_their_hash(hash: ContentsHash, entries: Entries, id: Seq<u8>)
    requires
        kept_have_their_hash(hash, entries),
    ensures
        lookup(entries, id) matches Some(data) ==> has_its_hash(hash, data),
    decreases entries.len(),
{
    if entries.len() > 0 {
        assert(has_its_hash(hash, entries[entries.len() - 1].1));
        let front = entries.drop_last();
        assert forall|i: int| 0 <= i < front.len() implies has_its_hash(
            hash,
            (#[trigger] front[i]).1,
        ) by {
            assert(has_its_hash(hash, entries[i].1));
        }
        found_blocks_have_their_hash(hash, front, id);
    }
}

proof fn taking_keeps_the_hashes(hash: ContentsHash, entries: Entries, id: Seq<u8>)
    requires
        kept_have_their_hash(hash, entries),
    ensures
        kept_have_their_hash(hash, without(entries, id)),
    decreases entries.len(),
{
    if entries.len() > 0 {
        assert(has_its_hash(hash, entries[entries.len() - 1].1));
        let front = entries.drop_last();
        assert forall|i: int| 0 <= i < front.len() implies has_its_hash(
            hash,
            (#[trigger] front[i]).1,
        ) by {
            assert(has_its_hash(hash, entries[i].1));
        }
        taking_keeps_the_hashes(hash, front, id);
    }
}

proof fn putting_keeps_the_hashes(
    hash: ContentsHash,
    entries: Entries,
    capacity: nat,
    blocks: Seq<ArchiveDataView>,
)
    requires
        kept_have_their_hash(hash, entries),
        all_have_their_hash(hash, blocks),
        capacity > 0,
    ensures
        kept_have_their_hash(hash, with_all_put(entries, capacity, blocks)),
    decreases blocks.len(),
{
    if blocks.len() > 0 {
        let front = blocks.drop_last();
        let last = blocks[blocks.len() - 1];
        assert(has_its_hash(hash, last));
        assert forall|i: int| 0 <= i < front.len() implies has_its_hash(
            hash,
            #[trigger] front[i],
        ) by {
            assert(has_its_hash(hash, blocks[i]));
        }
        putting_keeps_the_hashes(hash, entries, capacity, front);
        let before = with_all_put(entries, capacity, front);
        taking_keeps_the_hashes(hash, before, last.block.id);
        let others = without(before, last.block.id);
        let after = with_put(before, capacity, last.block.id, last);
        assert forall|i: int| 0 <= i < after.len() implies has_its_hash(
            hash,
            (#[trigger] after[i]).1,
        ) by {
            if i < after.len() - 1 {
                if others.len() >= capacity {
                    assert(after[i] == others[i + 1]);
                } else {
                    assert(after[i] == others[i]);
                }
            }
        }
    }
}

} // verus!
