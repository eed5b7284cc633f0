//! What holds of requests as a whole: of all the steps of one, and of several
//! in a row.

use crate::archive::ArchiveDataView;
use crate::archive_url::{url_joined, UrlView};
use crate::block::BlockView;
use crate::block_path::slash_separated;
use crate::cache::{
    all_that_is_put_is_found, is_last_of_its_id, lookup, taking_leaves_the_others, with_all_put,
    without,
};
use crate::error::ErrorView;
use crate::fetcher::{
    after_merged, after_received, after_request, counted, first_step, fresh, is_kept,
    kept_contents,
    requested_contents, source_in_turn, step_after_merged, FetcherView, BLOCKS_CACHE_CAPACITY,
};
use crate::steps::{block_step, bucket_size_at, step_from, PathsView, StepView, BUCKET_COUNT};
use vstd::arithmetic::div_mod::lemma_add_mod_noop;
use vstd::prelude::*;

verus! {

/// What fetching a run of merged blocks from a URL gives.
pub type MergedAnswers = spec_fn(UrlView) -> Result<Seq<ArchiveDataView>, ErrorView>;

/// What fetching a block from a URL gives.
pub type BlockAnswers = spec_fn(UrlView) -> Result<ArchiveDataView, ErrorView>;

/// How many runs of merged blocks a request may still fetch.
pub open spec fn runs_left(step: StepView) -> int {
    match step {
        StepView::FetchMergedBlocks { bucket, .. } => BUCKET_COUNT - bucket,
        _ => 0,
    }
}

/// How a request for `block` that is at `step` ends, and what the fetcher is
/// then, where fetching gives the given answers.
pub open spec fn outcome(
    fetcher: FetcherView,
    block: BlockView,
    paths: PathsView,
    step: StepView,
    merged: MergedAnswers,
    single: BlockAnswers,
) -> (Result<Seq<u8>, ErrorView>, FetcherView)
    decreases runs_left(step),
    when step matches StepView::FetchMergedBlocks { bucket, .. } ==> 0 <= bucket < BUCKET_COUNT
    via a_request_ends
{
    match step {
        StepView::Done(result) => (result, fetcher),
        StepView::FetchBlock { url } => {
            let result = requested_contents(block, url.text, single(url));
            (result, after_received(fetcher, result))
        },
        StepView::FetchMergedBlocks { source, bucket, url } => outcome(
            after_merged(fetcher, merged(url)),
            block,
            paths,
            step_after_merged(source, paths, block.index, bucket, merged(url)),
            merged,
            single,
        ),
    }
}

#[via_fn]
proof fn a_request_ends(
    fetcher: FetcherView,
    block: BlockView,
    paths: PathsView,
    step: StepView,
    merged: MergedAnswers,
    single: BlockAnswers,
) {
    if let StepView::FetchMergedBlocks { source, bucket, url } = step {
        steps_go_on(source, paths, block.index, bucket + 1);
    }
}

/// The step with sizes of runs from `bucket` on left to try fetches from
/// `source`, and a run only of one of those sizes, and only one that divides
/// the index.
pub proof fn steps_go_on(source: UrlView, paths: PathsView, index: u64, bucket: int)
    requires
        0 <= bucket <= BUCKET_COUNT,
    ensures
        step_from(source, paths, index, bucket) matches StepView::FetchMergedBlocks {
            source: from,
            bucket: next,
            ..
        } ==> {
            &&& from == source
            &&& bucket <= next < BUCKET_COUNT
            &&& index as nat % bucket_size_at(next) == 0
        },
        !(step_from(source, paths, index, bucket) matches StepView::Done(Ok(_))),
    decreases BUCKET_COUNT - bucket,
{
    if bucket < BUCKET_COUNT && index as nat % bucket_size_at(bucket) != 0 {
        steps_go_on(source, paths, index, bucket + 1);
    }
}

/// How a request for `block` ends, and what the fetcher is then.
pub open spec fn request(
    fetcher: FetcherView,
    block: BlockView,
    paths: PathsView,
    merged: MergedAnswers,
    single: BlockAnswers,
) -> (Result<Seq<u8>, ErrorView>, FetcherView) {
    outcome(
        after_request(fetcher, block),
        block,
        paths,
        first_step(fetcher, block, paths),
        merged,
        single,
    )
}

/// Only the block that was asked for answers a request: the contents that a
/// request gives are those of a block that is the same in every field, and
/// that was kept or was fetched.
pub proof fn only_the_requested_block_answers(
    fetcher: FetcherView,
    block: BlockView,
    paths: PathsView,
    merged: MergedAnswers,
    single: BlockAnswers,
)
    requires
        request(fetcher, block, paths, merged, single).0 is Ok,
    ensures
        ({
            let contents = request(fetcher, block, paths, merged, single).0->Ok_0;
            ||| {
                &&& lookup(fetcher.cache, block.id) is Some
                &&& lookup(fetcher.cache, block.id)->0.block == block
                &&& lookup(fetcher.cache, block.id)->0.block_contents == contents
            }
            ||| exists|url: UrlView| answers(#[trigger] single(url), block, contents)
        }),
{
    if kept_contents(fetcher.cache, block) is None {
        steps_go_on(source_in_turn(fetcher), paths, block.index, 0);
        only_a_fetched_block_answers(
            after_request(fetcher, block),
            block,
            paths,
            first_step(fetcher, block, paths),
            merged,
            single,
        );
    }
}

/// Whether a block that was fetched is `block`, with the given contents.
pub open spec fn answers(
    fetched: Result<ArchiveDataView, ErrorView>,
    block: BlockView,
    contents: Seq<u8>,
) -> bool {
    &&& fetched is Ok
    &&& fetched->Ok_0.block == block
    &&& fetched->Ok_0.block_contents == contents
}

proof fn only_a_fetched_block_answers(
    fetcher: FetcherView,
    block: BlockView,
    paths: PathsView,
    step: StepView,
    merged: MergedAnswers,
    single: BlockAnswers,
)
    requires
        !(step matches StepView::Done(Ok(_))),
        step matches StepView::FetchMergedBlocks { bucket, .. } ==> 0 <= bucket < BUCKET_COUNT,
        outcome(fetcher, block, paths, step, merged, single).0 is Ok,
    ensures
        exists|url: UrlView|
            answers(
                #[trigger] single(url),
                block,
                outcome(fetcher, block, paths, step, merged, single).0->Ok_0,
            ),
    decreases runs_left(step),
{
    match step {
        StepView::FetchBlock { url } => {
            assert(answers(
                single(url),
                block,
                outcome(fetcher, block, paths, step, merged, single).0->Ok_0,
            ));
        },
        StepView::FetchMergedBlocks { source, bucket, url } => {
            steps_go_on(source, paths, block.index, bucket + 1);
            steps_go_on(source, paths, block.index, BUCKET_COUNT as int);
            only_a_fetched_block_answers(
                after_merged(fetcher, merged(url)),
                block,
                paths,
                step_after_merged(source, paths, block.index, bucket, merged(url)),
                merged,
                single,
            );
        },
        StepView::Done(_) => {},
    }
}

/// Every answer is counted, and nothing else is: a request that gives contents
/// counts as one block that was kept or as one that was fetched, and one that
/// fails as neither. The sources stay as they are.
pub proof fn every_answer_is_counted(
    fetcher: FetcherView,
    block: BlockView,
    paths: PathsView,
    merged: MergedAnswers,
    single: BlockAnswers,
)
    ensures
        ({
            let (result, after) = request(fetcher, block, paths, merged, single);
            &&& after.source_urls == fetcher.source_urls
            &&& if result is Err {
                after.hits == fetcher.hits && after.misses == fetcher.misses
            } else if kept_contents(fetcher.cache, block) is Some {
                after.hits == counted(fetcher.hits) && after.misses == fetcher.misses
            } else {
                after.hits == fetcher.hits && after.misses == counted(fetcher.misses)
            }
        }),
{
    if kept_contents(fetcher.cache, block) is None {
        steps_go_on(source_in_turn(fetcher), paths, block.index, 0);
        fetches_are_counted(
            after_request(fetcher, block),
            block,
            paths,
            first_step(fetcher, block, paths),
            merged,
            single,
        );
    }
}

proof fn fetches_are_counted(
    fetcher: FetcherView,
    block: BlockView,
    paths: PathsView,
    step: StepView,
    merged: MergedAnswers,
    single: BlockAnswers,
)
    requires
        !(step matches StepView::Done(Ok(_))),
        step matches StepView::FetchMergedBlocks { bucket, .. } ==> 0 <= bucket < BUCKET_COUNT,
    ensures
        ({
            let (result, after) = outcome(fetcher, block, paths, step, merged, single);
            &&& after.source_urls == fetcher.source_urls
            &&& after.hits == fetcher.hits
            &&& after.misses == if result is Ok {
                counted(fetcher.misses)
            } else {
                fetcher.misses
            }
        }),
    decreases runs_left(step),
{
    if let StepView::FetchMergedBlocks { source, bucket, url } = step {
        steps_go_on(source, paths, block.index, bucket + 1);
        steps_go_on(source, paths, block.index, BUCKET_COUNT as int);
        fetches_are_counted(
            after_merged(fetcher, merged(url)),
            block,
            paths,
            step_after_merged(source, paths, block.index, bucket, merged(url)),
            merged,
            single,
        );
    }
}

/// A block that is kept answers a request at once, and a second request for
/// it is not answered that way: it was taken out.
pub proof fn a_kept_block_answers_once(fetcher: FetcherView, block: BlockView, paths: PathsView)
    ensures
        kept_contents(fetcher.cache, block) matches Some(contents) ==> first_step(
            fetcher,
            block,
            paths,
        ) == StepView::Done(Ok(contents)),
        kept_contents(after_request(fetcher, block).cache, block) is None,
{
    taking_leaves_the_others(fetcher.cache, block.id, block.id);
}

/// A fetcher after requests for `blocks`, one after the other, as far as they
/// are answered by what is kept.
pub open spec fn after_requests(fetcher: FetcherView, blocks: Seq<BlockView>) -> FetcherView
    decreases blocks.len(),
{
    if blocks.len() == 0 {
        fetcher
    } else {
        after_request(after_requests(fetcher, blocks.drop_last()), blocks.last())
    }
}

/// What is kept for a block stays while other blocks are asked for, in any
/// order.
pub proof fn what_is_kept_waits(fetcher: FetcherView, others: Seq<BlockView>, block: BlockView)
    requires
        forall|i: int| 0 <= i < others.len() ==> (#[trigger] others[i]).id != block.id,
    ensures
        kept_contents(after_requests(fetcher, others).cache, block) == kept_contents(
            fetcher.cache,
            block,
        ),
    decreases others.len(),
{
    if others.len() > 0 {
        let front = others.drop_last();
        assert forall|i: int| 0 <= i < front.len() implies (#[trigger] front[i]).id
            != block.id by {
            assert(others[i].id != block.id);
        }
        what_is_kept_waits(fetcher, front, block);
        assert(others[others.len() - 1].id != block.id);
        taking_leaves_the_others(
            after_requests(fetcher, front).cache,
            others.last().id,
            block.id,
        );
    }
}

/// Whether the block at `n` of a run that was fetched is kept: no later one
/// bears its identifier, and fewer come after it than there is room for.
pub open spec fn stays_kept(blocks: Seq<ArchiveDataView>, n: int) -> bool {
    &&& 0 <= n < blocks.len() <= n + BLOCKS_CACHE_CAPACITY
    &&& is_last_of_its_id(blocks, n)
}

/// After a run of merged blocks was fetched, each of them that is kept answers
/// a request without a fetch, whatever other blocks are asked for before.
pub proof fn merged_blocks_answer_later_requests(
    fetcher: FetcherView,
    blocks: Seq<ArchiveDataView>,
    n: int,
    others: Seq<BlockView>,
    paths: PathsView,
)
    requires
        stays_kept(blocks, n),
        forall|i: int| 0 <= i < others.len() ==> (#[trigger] others[i]).id != blocks[n].block.id,
    ensures
        first_step(
            after_requests(after_merged(fetcher, Ok(blocks)), others),
            blocks[n].block,
            paths,
        ) == StepView::Done(Ok(blocks[n].block_contents)),
{
    all_that_is_put_is_found(fetcher.cache, BLOCKS_CACHE_CAPACITY as nat, blocks, n);
    what_is_kept_waits(after_merged(fetcher, Ok(blocks)), others, blocks[n].block);
}

/// The run of merged blocks that a request that is at `step` fetches, where
/// there is one to be had.
pub open spec fn fetched_run(
    index: u64,
    paths: PathsView,
    step: StepView,
    merged: MergedAnswers,
) -> Option<Seq<ArchiveDataView>>
    decreases runs_left(step),
    when step matches StepView::FetchMergedBlocks { bucket, .. } ==> 0 <= bucket < BUCKET_COUNT
    via a_search_for_runs_ends
{
    match step {
        StepView::FetchMergedBlocks { source, bucket, url } => match merged(url) {
            Ok(blocks) => Some(blocks),
            Err(_) => fetched_run(
                index,
                paths,
                step_from(source, paths, index, bucket + 1),
                merged,
            ),
        },
        _ => None,
    }
}

#[via_fn]
proof fn a_search_for_runs_ends(
    index: u64,
    paths: PathsView,
    step: StepView,
    merged: MergedAnswers,
) {
    if let StepView::FetchMergedBlocks { source, bucket, url } = step {
        steps_go_on(source, paths, index, bucket + 1);
    }
}

/// A request keeps the run of merged blocks that it fetched, also where it then
/// fails: what is kept afterwards is what was kept before, without the block
/// that was asked for, and with that run.
pub proof fn a_request_keeps_the_run_that_it_fetched(
    fetcher: FetcherView,
    block: BlockView,
    paths: PathsView,
    merged: MergedAnswers,
    single: BlockAnswers,
)
    requires
        kept_contents(fetcher.cache, block) is None,
    ensures
        ({
            let before = without(fetcher.cache, block.id);
            request(fetcher, block, paths, merged, single).1.cache == match fetched_run(
                block.index,
                paths,
                first_step(fetcher, block, paths),
                merged,
            ) {
                Some(blocks) => with_all_put(before, BLOCKS_CACHE_CAPACITY as nat, blocks),
                None => before,
            }
        }),
{
    steps_go_on(source_in_turn(fetcher), paths, block.index, 0);
    steps_keep_the_run_that_they_fetch(
        after_request(fetcher, block),
        block,
        paths,
        first_step(fetcher, block, paths),
        merged,
        single,
    );
}

proof fn steps_keep_the_run_that_they_fetch(
    fetcher: FetcherView,
    block: BlockView,
    paths: PathsView,
    step: StepView,
    merged: MergedAnswers,
    single: BlockAnswers,
)
    requires
        step matches StepView::FetchMergedBlocks { bucket, .. } ==> 0 <= bucket < BUCKET_COUNT,
    ensures
        outcome(fetcher, block, paths, step, merged, single).1.cache == match fetched_run(
            block.index,
            paths,
            step,
            merged,
        ) {
            Some(blocks) => with_all_put(fetcher.cache, BLOCKS_CACHE_CAPACITY as nat, blocks),
            None => fetcher.cache,
        },
    decreases runs_left(step),
{
    if let StepView::FetchMergedBlocks { source, bucket, url } = step {
        steps_go_on(source, paths, block.index, bucket + 1);
        let next = step_after_merged(source, paths, block.index, bucket, merged(url));
        steps_keep_the_run_that_they_fetch(
            after_merged(fetcher, merged(url)),
            block,
            paths,
            next,
            merged,
            single,
        );
    }
}

/// The blocks of a run that a request fetched answer later requests without a
/// fetch, whether or not that request was answered, and whatever other blocks
/// are asked for before. The block that it was for is one of them where the run
/// holds it: a request that failed is then answered when it is made again.
pub proof fn a_fetched_run_outlives_its_request(
    fetcher: FetcherView,
    block: BlockView,
    paths: PathsView,
    merged: MergedAnswers,
    single: BlockAnswers,
    blocks: Seq<ArchiveDataView>,
    n: int,
    others: Seq<BlockView>,
    later_paths: PathsView,
)
    requires
        kept_contents(fetcher.cache, block) is None,
        fetched_run(block.index, paths, first_step(fetcher, block, paths), merged) == Some(blocks),
        stays_kept(blocks, n),
        forall|i: int| 0 <= i < others.len() ==> (#[trigger] others[i]).id != blocks[n].block.id,
    ensures
        first_step(
            after_requests(request(fetcher, block, paths, merged, single).1, others),
            blocks[n].block,
            later_paths,
        ) == StepView::Done(Ok(blocks[n].block_contents)),
{
    let after = request(fetcher, block, paths, merged, single).1;
    a_request_keeps_the_run_that_it_fetched(fetcher, block, paths, merged, single);
    all_that_is_put_is_found(
        without(fetcher.cache, block.id),
        BLOCKS_CACHE_CAPACITY as nat,
        blocks,
        n,
    );
    what_is_kept_waits(after, others, blocks[n].block);
}

/// A call of a fetcher.
pub enum FetcherCall {
    /// A block was asked for.
    Requested { block: BlockView },
    /// A run of merged blocks was received from `url`, or was not.
    MergedReceived { url: Seq<char>, received: Result<Seq<ArchiveDataView>, ErrorView> },
    /// The block that was asked for was received from `url`, or was not.
    BlockReceived {
        block: BlockView,
        url: Seq<char>,
        received: Result<ArchiveDataView, ErrorView>,
    },
}

/// A fetcher after a call.
pub open spec fn after_call(fetcher: FetcherView, call: FetcherCall) -> FetcherView {
    match call {
        FetcherCall::Requested { block } => after_request(fetcher, block),
        FetcherCall::MergedReceived { received, .. } => after_merged(fetcher, received),
        FetcherCall::BlockReceived { block, url, received } => after_received(
            fetcher,
            requested_contents(block, url, received),
        ),
    }
}

/// A fetcher after `calls`, in order.
pub open spec fn after_calls(fetcher: FetcherView, calls: Seq<FetcherCall>) -> FetcherView
    decreases calls.len(),
{
    if calls.len() == 0 {
        fetcher
    } else {
        after_call(after_calls(fetcher, calls.drop_last()), calls.last())
    }
}

/// How many of `calls` were requests that were not answered by what was kept.
pub open spec fn turns_taken(fetcher: FetcherView, calls: Seq<FetcherCall>) -> nat
    decreases calls.len(),
{
    if calls.len() == 0 {
        0
    } else {
        let front = calls.drop_last();
        let before = turns_taken(fetcher, front);
        match calls.last() {
            FetcherCall::Requested { block } => if kept_contents(
                after_calls(fetcher, front).cache,
                block,
            ) is None {
                before + 1
            } else {
                before
            },
            _ => before,
        }
    }
}

/// The sources take turns in the order in which they were given, over and over:
/// whatever calls a fetcher that was new has had, after as many requests that
/// were not answered by what was kept it is the turn of the source with that
/// number, counted from zero and round the sources. Left out are numbers that a
/// machine word does not hold.
pub proof fn the_sources_take_turns_in_order(source_urls: Seq<UrlView>, calls: Seq<FetcherCall>)
    requires
        source_urls.len() > 0,
        turns_taken(fresh(source_urls), calls) <= u64::MAX,
        turns_taken(fresh(source_urls), calls) <= usize::MAX,
    ensures
        source_in_turn(after_calls(fresh(source_urls), calls)) == source_urls[turns_taken(
            fresh(source_urls),
            calls,
        ) as int % source_urls.len() as int],
{
    turns_are_counted(source_urls, calls);
}

proof fn turns_are_counted(source_urls: Seq<UrlView>, calls: Seq<FetcherCall>)
    requires
        turns_taken(fresh(source_urls), calls) <= u64::MAX,
    ensures
        ({
            let fetcher = after_calls(fresh(source_urls), calls);
            &&& fetcher.source_urls == source_urls
            &&& fetcher.source_index_counter == turns_taken(fresh(source_urls), calls)
        }),
    decreases calls.len(),
{
    if calls.len() > 0 {
        turns_are_counted(source_urls, calls.drop_last());
    }
}

/// The next source has the next turn: after a request that is not answered by what is
/// kept, it is the turn of the next source, and after the last one of the
/// first again. Left out is the moment at which the count of turns, read as a
/// machine word, starts over.
pub proof fn the_sources_take_turns(fetcher: FetcherView, block: BlockView)
    requires
        fetcher.source_urls.len() > 0,
        kept_contents(fetcher.cache, block) is None,
        fetcher.source_index_counter < u64::MAX,
        fetcher.source_index_counter < usize::MAX,
    ensures
        ({
            let n = fetcher.source_urls.len() as int;
            let turn = fetcher.source_index_counter as int % n;
            &&& source_in_turn(fetcher) == fetcher.source_urls[turn]
            &&& source_in_turn(after_request(fetcher, block)) == fetcher.source_urls[if turn + 1
                == n {
                0
            } else {
                turn + 1
            }]
        }),
{
    let n = fetcher.source_urls.len() as int;
    let c = fetcher.source_index_counter as int;
    let turn = c % n;
    lemma_add_mod_noop(c, 1, n);
    if n == 1 {
        assert((c + 1) % n == 0);
    } else {
        assert((turn + 1int % n) % n == (c + 1) % n);
        vstd::arithmetic::div_mod::lemma_small_mod(1, n as nat);
        if turn + 1 < n {
            vstd::arithmetic::div_mod::lemma_small_mod((turn + 1) as nat, n as nat);
        } else {
            vstd::arithmetic::div_mod::lemma_mod_self_0(n);
        }
    }
}

/// A request that is not answered by what is kept goes to one source alone,
/// the one whose turn it is, and starts with the largest run that can begin
/// with the block.
pub proof fn a_request_goes_to_one_source(
    fetcher: FetcherView,
    block: BlockView,
    paths: PathsView,
)
    requires
        kept_contents(fetcher.cache, block) is None,
    ensures
        first_step(fetcher, block, paths) matches StepView::FetchMergedBlocks {
            source,
            bucket,
            ..
        } ==> {
            &&& source == source_in_turn(fetcher)
            &&& 0 <= bucket < BUCKET_COUNT
            &&& block.index as nat % bucket_size_at(bucket) == 0
            &&& forall|larger: int|
                0 <= larger < bucket ==> block.index as nat % #[trigger]
                bucket_size_at(larger) != 0
        },
        (forall|bucket: int|
            0 <= bucket < BUCKET_COUNT ==> block.index as nat % #[trigger]
            bucket_size_at(bucket) != 0) ==> first_step(fetcher, block, paths)
            == block_step(source_in_turn(fetcher), paths),
{
    reveal_with_fuel(step_from, 4);
}

/// A request is answered where the block can be had: by what is kept, where the
/// block is kept; and else by the block's own file below the source whose turn
/// it is, where that holds the block that was asked for, whatever its signature
/// is and whatever came of the runs that were tried before. Another block, or an
/// error, is reported. The paths that are tried must give URLs below the source.
pub proof fn a_request_is_answered_where_the_block_can_be_had(
    fetcher: FetcherView,
    block: BlockView,
    paths: PathsView,
    merged: MergedAnswers,
    single: BlockAnswers,
    url: UrlView,
)
    requires
        ({
            let source = source_in_turn(fetcher).text;
            &&& url_joined(source, slash_separated(paths.block)) == Ok::<_, Seq<char>>(url)
            &&& block.index as int % 10000 == 0 ==> url_joined(
                source,
                slash_separated(paths.merged_10000),
            ) is Ok
            &&& block.index as int % 1000 == 0 ==> url_joined(
                source,
                slash_separated(paths.merged_1000),
            ) is Ok
            &&& block.index as int % 100 == 0 ==> url_joined(
                source,
                slash_separated(paths.merged_100),
            ) is Ok
        }),
    ensures
        ({
            let result = request(fetcher, block, paths, merged, single).0;
            if is_kept(fetcher.cache, block) {
                result == Ok::<_, ErrorView>(lookup(fetcher.cache, block.id)->0.block_contents)
            } else {
                match single(url) {
                    Ok(data) => if data.block == block {
                        result == Ok::<_, ErrorView>(data.block_contents)
                    } else {
                        result == Err::<Seq<u8>, _>(
                            ErrorView::InvalidBlockReceived(url.text, "block data mismatch"@),
                        )
                    },
                    Err(error) => result == Err::<Seq<u8>, _>(error),
                }
            }
        }),
{
    if !is_kept(fetcher.cache, block) {
        a_fetch_ends_with_the_block(
            after_request(fetcher, block),
            block,
            paths,
            source_in_turn(fetcher),
            0,
            merged,
            single,
            url,
        );
    }
}

proof fn a_fetch_ends_with_the_block(
    fetcher: FetcherView,
    block: BlockView,
    paths: PathsView,
    source: UrlView,
    bucket: int,
    merged: MergedAnswers,
    single: BlockAnswers,
    url: UrlView,
)
    requires
        0 <= bucket <= BUCKET_COUNT,
        url_joined(source.text, slash_separated(paths.block)) == Ok::<_, Seq<char>>(url),
        block.index as int % 10000 == 0 ==> url_joined(
            source.text,
            slash_separated(paths.merged_10000),
        ) is Ok,
        block.index as int % 1000 == 0 ==> url_joined(
            source.text,
            slash_separated(paths.merged_1000),
        ) is Ok,
        block.index as int % 100 == 0 ==> url_joined(
            source.text,
            slash_separated(paths.merged_100),
        ) is Ok,
    ensures
        outcome(
            fetcher,
            block,
            paths,
            step_from(source, paths, block.index, bucket),
            merged,
            single,
        ).0 == requested_contents(block, url.text, single(url)),
    decreases BUCKET_COUNT - bucket,
{
    steps_go_on(source, paths, block.index, bucket);
    if bucket < BUCKET_COUNT {
        if block.index as nat % bucket_size_at(bucket) == 0 {
            let run_url = url_joined(source.text, slash_separated(paths.merged(bucket)))->Ok_0;
            assert(step_from(source, paths, block.index, bucket) == (StepView::FetchMergedBlocks {
                source,
                bucket,
                url: run_url,
            }));
            a_fetch_ends_with_the_block(
                after_merged(fetcher, merged(run_url)),
                block,
                paths,
                source,
                bucket + 1,
                merged,
                single,
                url,
            );
            a_fetch_ends_with_the_block(
                after_merged(fetcher, merged(run_url)),
                block,
                paths,
                source,
                BUCKET_COUNT as int,
                merged,
                single,
                url,
            );
        } else {
            a_fetch_ends_with_the_block(
                fetcher,
                block,
                paths,
                source,
                bucket + 1,
                merged,
                single,
                url,
            );
        }
    }
}

} // verus!
