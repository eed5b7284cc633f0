//! The steps by which the contents of a block are fetched.

use crate::archive_url::{join_url, url_joined, url_result, ArchiveUrl, UrlView};
use crate::block::{BlockContents, BlockIndex};
use crate::block_path::{slash_separated, BlockPath, PathQuery};
use crate::error::{ErrorView, ReqwestTransactionsFetcherError};
use crate::sources::{url_or_error, url_or_error_of};
use vstd::prelude::*;

verus! {

/// How many sizes of runs of merged blocks are looked for.
pub const BUCKET_COUNT: usize = 3;

/// The sizes of the runs of merged blocks that are looked for, the largest
/// first.
pub open spec fn bucket_size_at(bucket: int) -> nat {
    if bucket == 0 {
        10000
    } else if bucket == 1 {
        1000
    } else {
        100
    }
}

/// The size of the runs of merged blocks that are looked for in the given
/// place.
pub fn bucket_size(bucket: usize) -> (size: u64)
    requires
        bucket < BUCKET_COUNT,
    ensures
        size == bucket_size_at(bucket as int),
        size > 0,
{
    if bucket == 0 {
        10000
    } else if bucket == 1 {
        1000
    } else {
        100
    }
}

/// Where the block that is asked for lies in an archive: in a file of its own,
/// and at the start of a run of merged blocks of each size that is looked for.
#[derive(Debug)]
pub struct BlockPaths {
    pub block: BlockPath,
    pub merged_10000: BlockPath,
    pub merged_1000: BlockPath,
    pub merged_100: BlockPath,
}

/// What the layout of an archive is asked for to know where a block lies.
#[derive(Clone, Copy, Debug, PartialEq, Eq, Structural)]
pub struct BlockPathQueries {
    pub block: PathQuery,
    pub merged_10000: PathQuery,
    pub merged_1000: PathQuery,
    pub merged_100: PathQuery,
}

/// Says what paths are needed to ask for the block at `index`: its own, and
/// those of the runs of each size that would begin with it.
pub fn block_path_queries(index: BlockIndex) -> (queries: BlockPathQueries)
    ensures
        queries.block == (PathQuery::Block { index }),
        queries.merged_10000 == (PathQuery::Run { size: 10000, first: index }),
        queries.merged_1000 == (PathQuery::Run { size: 1000, first: index }),
        queries.merged_100 == (PathQuery::Run { size: 100, first: index }),
{
    BlockPathQueries {
        block: PathQuery::Block { index },
        merged_10000: PathQuery::Run { size: bucket_size(0), first: index },
        merged_1000: PathQuery::Run { size: bucket_size(1), first: index },
        merged_100: PathQuery::Run { size: bucket_size(2), first: index },
    }
}

/// What a `BlockPaths` is, as a mathematical value.
pub struct PathsView {
    pub block: Seq<Seq<char>>,
    pub merged_10000: Seq<Seq<char>>,
    pub merged_1000: Seq<Seq<char>>,
    pub merged_100: Seq<Seq<char>>,
}

impl View for BlockPaths {
    type V = PathsView;

    open spec fn view(&self) -> PathsView {
        PathsView {
            block: self.block@,
            merged_10000: self.merged_10000@,
            merged_1000: self.merged_1000@,
            merged_100: self.merged_100@,
        }
    }
}

impl PathsView {
    /// The path of the run of merged blocks in the given place.
    pub open spec fn merged(self, bucket: int) -> Seq<Seq<char>> {
        if bucket == 0 {
            self.merged_10000
        } else if bucket == 1 {
            self.merged_1000
        } else {
            self.merged_100
        }
    }
}

impl BlockPaths {
    fn merged(&self, bucket: usize) -> (path: &BlockPath)
        requires
            bucket < BUCKET_COUNT,
        ensures
            path@ == self@.merged(bucket as int),
    {
        if bucket == 0 {
            &self.merged_10000
        } else if bucket == 1 {
            &self.merged_1000
        } else {
            &self.merged_100
        }
    }
}

/// What is to be done next to get the contents of a block.
#[derive(Debug)]
pub enum FetchStep {
    /// Fetch the run of merged blocks at `url`.
    FetchMergedBlocks {
        /// The source that this fetch goes to.
        source: ArchiveUrl,
        /// The place of the size of the run.
        bucket: usize,
        /// Where the run is.
        url: ArchiveUrl,
    },
    /// Fetch the block at `url`.
    FetchBlock {
        /// Where the block is.
        url: ArchiveUrl,
    },
    /// Nothing: this is the result.
    Done(Result<BlockContents, ReqwestTransactionsFetcherError>),
}

/// What a `FetchStep` is, as a mathematical value.
#[verifier::ext_equal]
pub enum StepView {
    FetchMergedBlocks { source: UrlView, bucket: int, url: UrlView },
    FetchBlock { url: UrlView },
    Done(Result<Seq<u8>, ErrorView>),
}

impl View for FetchStep {
    type V = StepView;

    open spec fn view(&self) -> StepView {
        match *self {
            FetchStep::FetchMergedBlocks { source, bucket, url } => StepView::FetchMergedBlocks {
                source: source@,
                bucket: bucket as int,
                url: url@,
            },
            FetchStep::FetchBlock { url } => StepView::FetchBlock { url: url@ },
            FetchStep::Done(result) => StepView::Done(contents_result(result)),
        }
    }
}

/// The contents of a block, or the error, as a mathematical value.
pub open spec fn contents_result(
    r: Result<BlockContents, ReqwestTransactionsFetcherError>,
) -> Result<Seq<u8>, ErrorView> {
    match r {
        Ok(contents) => Ok(contents@),
        Err(error) => Err(error@),
    }
}

/// The step that fetches a run of merged blocks, once the URL for `filename`
/// was looked for.
pub open spec fn merged_fetch(
    source: UrlView,
    bucket: int,
    filename: Seq<char>,
    url: Result<UrlView, Seq<char>>,
) -> StepView {
    match url_or_error_of(filename, url) {
        Ok(url) => StepView::FetchMergedBlocks { source, bucket, url },
        Err(error) => StepView::Done(Err(error)),
    }
}

/// The step that fetches a single block, once the URL for `filename` was
/// looked for.
pub open spec fn block_fetch(filename: Seq<char>, url: Result<UrlView, Seq<char>>) -> StepView {
    match url_or_error_of(filename, url) {
        Ok(url) => StepView::FetchBlock { url },
        Err(error) => StepView::Done(Err(error)),
    }
}

/// The step that fetches the block at `path` of `source`.
pub open spec fn block_step(source: UrlView, paths: PathsView) -> StepView {
    let filename = slash_separated(paths.block);
    block_fetch(filename, url_joined(source.text, filename))
}

/// The next step of a fetch that has sizes of runs from `bucket` on left to
/// try: the first size that divides the index, or else the block itself.
pub open spec fn step_from(
    source: UrlView,
    paths: PathsView,
    index: u64,
    bucket: int,
) -> StepView
    decreases BUCKET_COUNT - bucket,
{
    if bucket >= BUCKET_COUNT {
        block_step(source, paths)
    } else if index as nat % bucket_size_at(bucket) == 0 {
        let filename = slash_separated(paths.merged(bucket));
        merged_fetch(source, bucket, filename, url_joined(source.text, filename))
    } else {
        step_from(source, paths, index, bucket + 1)
    }
}

/// Makes the step that fetches a run of merged blocks.
pub fn merged_fetch_step(
    source: &ArchiveUrl,
    bucket: usize,
    filename: &str,
    url: Result<ArchiveUrl, String>,
) -> (step: FetchStep)
    ensures
        step@ == merged_fetch(source@, bucket as int, filename@, url_result(url)),
{
    match url_or_error(filename, url) {
        Ok(url) => FetchStep::FetchMergedBlocks { source: source.clone(), bucket, url },
        Err(error) => FetchStep::Done(Err(error)),
    }
}

/// Makes the step that fetches a single block.
pub fn block_fetch_step(filename: &str, url: Result<ArchiveUrl, String>) -> (step: FetchStep)
    ensures
        step@ == block_fetch(filename@, url_result(url)),
{
    match url_or_error(filename, url) {
        Ok(url) => FetchStep::FetchBlock { url },
        Err(error) => FetchStep::Done(Err(error)),
    }
}

pub(crate) fn next_step(
    source: &ArchiveUrl,
    paths: &BlockPaths,
    index: u64,
    first_bucket: usize,
) -> (step: FetchStep)
    ensures
        step@ == step_from(source@, paths@, index, first_bucket as int),
{
    let mut bucket: usize = first_bucket;
    while bucket < BUCKET_COUNT
        invariant
            step_from(source@, paths@, index, first_bucket as int) == step_from(
                source@,
                paths@,
                index,
                bucket as int,
            ),
        decreases BUCKET_COUNT - bucket,
    {
        if index % bucket_size(bucket) == 0 {
            let filename = paths.merged(bucket).text();
            let url = join_url(source.text.as_str(), filename.as_str());
            return merged_fetch_step(source, bucket, filename.as_str(), url);
        }
        bucket += 1;
    }
    let filename = paths.block.text();
    let url = join_url(source.text.as_str(), filename.as_str());
    block_fetch_step(filename.as_str(), url)
}

/// Whether `step` fetches a run of merged blocks from the path `parts` below
/// `source`, or else says that the path gives no URL there.
pub open spec fn fetches_run(
    step: StepView,
    source: UrlView,
    bucket: int,
    parts: Seq<Seq<char>>,
) -> bool {
    match url_joined(source.text, slash_separated(parts)) {
        Ok(url) => step == StepView::FetchMergedBlocks { source, bucket, url },
        Err(error) => step == StepView::Done(
            Err(ErrorView::UrlParse(slash_separated(parts), error)),
        ),
    }
}

/// Whether `step` fetches a single block from the path `parts` below `source`,
/// or else says that the path gives no URL there.
pub open spec fn fetches_block(step: StepView, source: UrlView, parts: Seq<Seq<char>>) -> bool {
    match url_joined(source.text, slash_separated(parts)) {
        Ok(url) => step == (StepView::FetchBlock { url }),
        Err(error) => step == StepView::Done(
            Err(ErrorView::UrlParse(slash_separated(parts), error)),
        ),
    }
}

/// A block is looked for first in the largest run that can begin with it, of
/// the sizes that are left to try, and else in its own file: each at its own
/// path below the source.
pub proof fn a_block_is_looked_for_in_the_largest_run(
    source: UrlView,
    paths: PathsView,
    index: u64,
    bucket: int,
)
    requires
        0 <= bucket,
    ensures
        ({
            let step = step_from(source, paths, index, bucket);
            if bucket == 0 && index as int % 10000 == 0 {
                fetches_run(step, source, 0, paths.merged_10000)
            } else if bucket <= 1 && index as int % 1000 == 0 {
                fetches_run(step, source, 1, paths.merged_1000)
            } else if bucket <= 2 && index as int % 100 == 0 {
                fetches_run(step, source, 2, paths.merged_100)
            } else {
                fetches_block(step, source, paths.block)
            }
        }),
        fetches_block(block_step(source, paths), source, paths.block),
{
    reveal_with_fuel(step_from, 4);
}

/// A step goes where it was found to go: a URL is fetched from as it is, and
/// where there is none, the path is named with what is wrong.
pub proof fn a_step_goes_where_it_was_found_to_go(
    source: UrlView,
    bucket: int,
    filename: Seq<char>,
    url: UrlView,
    error: Seq<char>,
)
    ensures
        merged_fetch(source, bucket, filename, Ok(url)) == (StepView::FetchMergedBlocks {
            source,
            bucket,
            url,
        }),
        block_fetch(filename, Ok(url)) == (StepView::FetchBlock { url }),
        merged_fetch(source, bucket, filename, Err(error)) == StepView::Done(
            Err(ErrorView::UrlParse(filename, error)),
        ),
        block_fetch(filename, Err(error)) == StepView::Done(
            Err(ErrorView::UrlParse(filename, error)),
        ),
{
}

/// The sizes of runs go from the largest to the smallest, and a run of a larger
/// size begins where one of each smaller size can begin.
pub proof fn sizes_of_runs_go_down()
    ensures
        bucket_size_at(0) == 10 * bucket_size_at(1),
        bucket_size_at(1) == 10 * bucket_size_at(2),
        bucket_size_at(2) == 100,
        BUCKET_COUNT == 3,
{
}

} // verus!
