//! Fetching blocks from an archive.
//!
//! The fetcher decides where to look for a block, what to make of what comes
//! back, and what to keep for later. It reads no file and sends no request:
//! each step says what is to be fetched next, and the caller hands back what
//! came of it.

use crate::archive::{
    archive_block_data, data_result, ArchiveBlockData, ArchiveDataView, DecodedArchiveBlock,
};
use crate::archive_url::{join_url, url_joined, url_result, ArchiveUrl, UrlView};
use crate::block::{Block, BlockContents, BlockView};
use crate::block_path::{slash_separated, BlockPath};
use crate::cache::{lookup, taking_filters, with_all_put, without, BlockCache, Entries};
use crate::chain::{
    archive_blocks_data, chain_result, decoded_views, id_texts, UnlinkedBlocks,
};
use crate::error::{ErrorView, ReqwestTransactionsFetcherError};
use crate::requests::steps_go_on;
use crate::sources::{parse_sources, parsed_sources, url_views};
use crate::steps::{
    a_block_is_looked_for_in_the_largest_run, block_step, contents_result, fetches_block,
    fetches_run, next_step, step_from, BlockPaths, FetchStep, PathsView, StepView, BUCKET_COUNT,
};
use crate::text::texts;
use vstd::prelude::*;

verus! {

/// How many blocks a fetcher keeps for later.
pub const BLOCKS_CACHE_CAPACITY: usize = 100000;

/// Fetches blocks from one of several sources, each in its turn, and keeps
/// blocks that came along with others for later. `C` is the client that sends
/// requests over HTTP.
#[derive(Debug)]
pub struct ReqwestTransactionsFetcher<C> {
    /// The sources. The URL of each ends with a slash.
    pub source_urls: Vec<ArchiveUrl>,
    client: C,
    source_index_counter: u64,
    blocks_cache: BlockCache,
    hits: u64,
    misses: u64,
}

/// What a fetcher is, as a mathematical value.
#[verifier::ext_equal]
pub struct FetcherView {
    /// The sources.
    pub source_urls: Seq<UrlView>,
    /// How often a source was chosen.
    pub source_index_counter: u64,
    /// The blocks that are kept, the oldest first.
    pub cache: Entries,
    /// How often a block was found among those.
    pub hits: u64,
    /// How often a block was fetched.
    pub misses: u64,
}

/// The source whose turn it is.
pub open spec fn source_in_turn(fetcher: FetcherView) -> UrlView {
    fetcher.source_urls[(fetcher.source_index_counter as usize) as int
        % fetcher.source_urls.len() as int]
}

/// The contents that are kept for `block`: those of a block under its
/// identifier that is the same in every field.
pub open spec fn kept_contents(cache: Entries, block: BlockView) -> Option<Seq<u8>> {
    match lookup(cache, block.id) {
        Some(data) => if data.block == block {
            Some(data.block_contents)
        } else {
            None
        },
        None => None,
    }
}

/// One more, and after the greatest number zero.
pub open spec fn counted(n: u64) -> u64 {
    if n == u64::MAX {
        0
    } else {
        (n + 1) as u64
    }
}

/// A fetcher after a request for `block`. What is kept under the block's
/// identifier leaves in any case; where it does not answer the request, a
/// source has its turn.
pub open spec fn after_request(fetcher: FetcherView, block: BlockView) -> FetcherView {
    let cache = without(fetcher.cache, block.id);
    if kept_contents(fetcher.cache, block) is Some {
        FetcherView { cache, hits: counted(fetcher.hits), ..fetcher }
    } else {
        FetcherView {
            cache,
            source_index_counter: counted(fetcher.source_index_counter),
            ..fetcher
        }
    }
}

/// The first step of a request for `block`.
pub open spec fn first_step(fetcher: FetcherView, block: BlockView, paths: PathsView) -> StepView {
    match kept_contents(fetcher.cache, block) {
        Some(contents) => StepView::Done(Ok(contents)),
        None => step_from(source_in_turn(fetcher), paths, block.index, 0),
    }
}

/// A fetcher after a run of merged blocks was fetched, or was not.
pub open spec fn after_merged(
    fetcher: FetcherView,
    received: Result<Seq<ArchiveDataView>, ErrorView>,
) -> FetcherView {
    match received {
        Ok(blocks) => FetcherView {
            cache: with_all_put(fetcher.cache, BLOCKS_CACHE_CAPACITY as nat, blocks),
            ..fetcher
        },
        Err(_) => fetcher,
    }
}

/// The step after a run of merged blocks was fetched, or was not: the next
/// size of runs is tried only where it was not.
pub open spec fn step_after_merged(
    source: UrlView,
    paths: PathsView,
    index: u64,
    bucket: int,
    received: Result<Seq<ArchiveDataView>, ErrorView>,
) -> StepView {
    match received {
        Ok(_) => block_step(source, paths),
        Err(_) => step_from(source, paths, index, bucket + 1),
    }
}

/// What the block that was fetched from `url` means for a request for `block`.
pub open spec fn requested_contents(
    block: BlockView,
    url: Seq<char>,
    received: Result<ArchiveDataView, ErrorView>,
) -> Result<Seq<u8>, ErrorView> {
    match received {
        Err(error) => Err(error),
        Ok(data) => if data.block == block {
            Ok(data.block_contents)
        } else {
            Err(ErrorView::InvalidBlockReceived(url, "block data mismatch"@))
        },
    }
}

/// A fetcher after a request ended with a fetched block, or with an error.
pub open spec fn after_received(
    fetcher: FetcherView,
    result: Result<Seq<u8>, ErrorView>,
) -> FetcherView {
    FetcherView {
        misses: if result is Ok {
            counted(fetcher.misses)
        } else {
            fetcher.misses
        },
        ..fetcher
    }
}

/// The block and the contents of an archived block, or the error.
pub open spec fn block_and_contents(data: Result<ArchiveDataView, ErrorView>) -> Result<
    (BlockView, Seq<u8>),
    ErrorView,
> {
    match data {
        Ok(data) => Ok((data.block, data.block_contents)),
        Err(error) => Err(error),
    }
}

impl<C> ReqwestTransactionsFetcher<C> {
    /// What this fetcher is, but for its client.
    pub closed spec fn view(&self) -> FetcherView {
        FetcherView {
            source_urls: url_views(self.source_urls@),
            source_index_counter: self.source_index_counter,
            cache: self.blocks_cache@,
            hits: self.hits,
            misses: self.misses,
        }
    }

    /// The client.
    pub closed spec fn client_spec(&self) -> C {
        self.client
    }

    /// Whether the fetcher is one that its operations made.
    pub closed spec fn well_formed(&self) -> bool {
        &&& self.blocks_cache.well_formed()
        &&& self.blocks_cache.capacity() == BLOCKS_CACHE_CAPACITY
    }

    /// A fetcher for the given sources, with a client of its own.
    pub fn new(source_urls: Vec<String>) -> (r: Result<Self, ReqwestTransactionsFetcherError>) where
        C: Default,

        ensures
            match r {
                Ok(fetcher) => {
                    &&& fetcher.well_formed()
                    &&& call_ensures(C::default, (), fetcher.client_spec())
                    &&& parsed_sources(texts(source_urls@)) == Ok::<_, ErrorView>(
                        fetcher@.source_urls,
                    )
                    &&& fetcher@ == fresh(fetcher@.source_urls)
                },
                Err(error) => parsed_sources(texts(source_urls@)) == Err::<Seq<UrlView>, _>(
                    error@,
                ),
            },
    {
        Self::new_with_client(source_urls, C::default())
    }

    /// A fetcher for the given sources, with the given client.
    pub fn new_with_client(source_urls: Vec<String>, client: C) -> (r: Result<
        Self,
        ReqwestTransactionsFetcherError,
    >)
        ensures
            match r {
                Ok(fetcher) => {
                    &&& fetcher.well_formed()
                    &&& fetcher.client_spec() == client
                    &&& parsed_sources(texts(source_urls@)) == Ok::<_, ErrorView>(
                        fetcher@.source_urls,
                    )
                    &&& fetcher@ == fresh(fetcher@.source_urls)
                },
                Err(error) => parsed_sources(texts(source_urls@)) == Err::<Seq<UrlView>, _>(
                    error@,
                ),
            },
    {
        match parse_sources(&source_urls) {
            Ok(source_urls) => Ok(
                ReqwestTransactionsFetcher {
                    source_urls,
                    client,
                    source_index_counter: 0,
                    blocks_cache: BlockCache::new(BLOCKS_CACHE_CAPACITY),
                    hits: 0,
                    misses: 0,
                },
            ),
            Err(error) => Err(error),
        }
    }

    /// The client.
    pub fn client(&self) -> (client: &C)
        ensures
            *client == self.client_spec(),
    {
        &self.client
    }

    /// The sources.
    pub fn source_urls(&self) -> (urls: &Vec<ArchiveUrl>)
        ensures
            url_views(urls@) == self@.source_urls,
    {
        &self.source_urls
    }

    /// How often a block was found among those that were kept.
    pub fn hits(&self) -> (n: u64)
        ensures
            n == self@.hits,
    {
        self.hits
    }

    /// How often a block was fetched.
    pub fn misses(&self) -> (n: u64)
        ensures
            n == self@.misses,
    {
        self.misses
    }

    /// Checks the archived block that was fetched from `url`.
    pub fn block_from_url(
        &self,
        url: &ArchiveUrl,
        archive_block: Result<DecodedArchiveBlock, ReqwestTransactionsFetcherError>,
    ) -> (r: Result<ArchiveBlockData, ReqwestTransactionsFetcherError>)
        ensures
            data_result(r) == match archive_block {
                Ok(archive_block) => archive_block_data(url@.text, archive_block@),
                Err(error) => Err(error@),
            },
    {
        match archive_block {
            Ok(archive_block) => ArchiveBlockData::try_from((url, &archive_block)),
            Err(error) => Err(error),
        }
    }

    /// Checks each of the merged blocks that were fetched from `url`. The
    /// links between them are left to be checked.
    pub fn blocks_from_url(
        &self,
        url: &ArchiveUrl,
        archive_blocks: Result<Vec<DecodedArchiveBlock>, ReqwestTransactionsFetcherError>,
    ) -> (r: Result<UnlinkedBlocks, ReqwestTransactionsFetcherError>)
        ensures
            match archive_blocks {
                Err(error) => r == Err::<UnlinkedBlocks, _>(error),
                Ok(archive_blocks) => match r {
                    Ok(unlinked) => {
                        &&& archive_blocks_data(url@.text, decoded_views(archive_blocks@)) == Ok::<
                            _,
                            ErrorView,
                        >(unlinked.blocks())
                        &&& unlinked.id_texts() == id_texts(decoded_views(archive_blocks@))
                        &&& unlinked.source() == url@
                    },
                    Err(error) => archive_blocks_data(url@.text, decoded_views(archive_blocks@))
                        == Err::<Seq<ArchiveDataView>, _>(error@),
                },
            },
    {
        match archive_blocks {
            Ok(archive_blocks) => UnlinkedBlocks::new(url, &archive_blocks),
            Err(error) => Err(error),
        }
    }

    /// Where the origin block is to be fetched from: at its path below the
    /// first source. Where that gives no URL, the description of what is wrong
    /// stands in its place.
    pub fn origin_block_url(&self, path: &BlockPath) -> (r: Result<
        Result<ArchiveUrl, String>,
        ReqwestTransactionsFetcherError,
    >)
        ensures
            if self@.source_urls.len() == 0 {
                r is Err && r->Err_0@ == ErrorView::NoUrlsConfigured
            } else {
                r is Ok && url_result(r->Ok_0) == url_joined(
                    self@.source_urls[0].text,
                    slash_separated(path@),
                )
            },
    {
        if self.source_urls.len() == 0 {
            return Err(ReqwestTransactionsFetcherError::NoUrlsConfigured);
        }
        assert(self@.source_urls[0] == self.source_urls@[0]@);
        Ok(join_url(self.source_urls[0].text.as_str(), path.text().as_str()))
    }

    /// Checks the origin block that was fetched from `url`, and hands out its
    /// block and its contents.
    pub fn get_origin_block_and_transactions(
        &self,
        url: &ArchiveUrl,
        archive_block: Result<DecodedArchiveBlock, ReqwestTransactionsFetcherError>,
    ) -> (r: Result<(Block, BlockContents), ReqwestTransactionsFetcherError>)
        ensures
            match r {
                Ok((block, contents)) => Ok::<_, ErrorView>((block@, contents@)),
                Err(error) => Err(error@),
            } == block_and_contents(
                match archive_block {
                    Ok(archive_block) => archive_block_data(url@.text, archive_block@),
                    Err(error) => Err(error@),
                },
            ),
            match archive_block {
                Ok(archive_block) => match archive_block_data(url@.text, archive_block@) {
                    Ok(data) => {
                        &&& r is Ok
                        &&& r->Ok_0.0@ == data.block
                        &&& r->Ok_0.1@ == data.block_contents
                    },
                    Err(error) => r is Err && r->Err_0@ == error,
                },
                Err(error) => r is Err && r->Err_0@ == error@,
            },
    {
        match self.block_from_url(url, archive_block) {
            Ok(data) => Ok((data.block, data.block_contents)),
            Err(error) => Err(error),
        }
    }

    /// Tells whether a request for `block` is answered by what is kept.
    pub fn keeps(&self, block: &Block) -> (kept: bool)
        requires
            self.well_formed(),
        ensures
            kept == (kept_contents(self@.cache, block@) is Some),
    {
        match self.blocks_cache.peek(&block.id) {
            Some(data) => data.block == *block,
            None => false,
        }
    }

    /// Asks for the contents of `block`, and says what is to be done next. A
    /// block that is kept is taken out, on the assumption that nobody asks for
    /// the same block twice.
    pub fn get_block_contents(&mut self, block: &Block, paths: &BlockPaths) -> (step: FetchStep)
        requires
            old(self).well_formed(),
            old(self)@.source_urls.len() > 0 || kept_contents(old(self)@.cache, block@) is Some,
        ensures
            final(self).well_formed(),
            final(self).client_spec() == old(self).client_spec(),
            final(self)@ == after_request(old(self)@, block@),
            step@ == first_step(old(self)@, block@, paths@),
            match lookup(old(self)@.cache, block@.id) {
                Some(data) => if data.block == block@ {
                    &&& step matches FetchStep::Done(Ok(contents))
                    &&& contents@ == data.block_contents
                } else {
                    !(step matches FetchStep::Done(Ok(_)))
                },
                None => !(step matches FetchStep::Done(Ok(_))),
            },
    {
        if let Some(data) = self.blocks_cache.pop(&block.id) {
            if data.block == *block {
                self.hits = self.hits.wrapping_add(1);
                return FetchStep::Done(Ok(data.block_contents));
            }
        }
        let turn = self.source_index_counter as usize;
        self.source_index_counter = self.source_index_counter.wrapping_add(1);
        let source = &self.source_urls[turn % self.source_urls.len()];
        assert(source@ == source_in_turn(old(self)@));
        proof {
            steps_go_on(source@, paths@, block.index, 0);
        }
        next_step(source, paths, block.index, 0)
    }

    /// Goes on with a request for `block` after the run of merged blocks that
    /// was to be fetched was received, or was not. The blocks of the run are
    /// kept for later.
    pub fn merged_blocks_received(
        &mut self,
        block: &Block,
        paths: &BlockPaths,
        source: &ArchiveUrl,
        bucket: usize,
        received: Result<Vec<ArchiveBlockData>, ReqwestTransactionsFetcherError>,
    ) -> (step: FetchStep)
        requires
            old(self).well_formed(),
            bucket < BUCKET_COUNT,
        ensures
            final(self).well_formed(),
            final(self).client_spec() == old(self).client_spec(),
            final(self)@ == after_merged(old(self)@, chain_result(received)),
            step@ == step_after_merged(
                source@,
                paths@,
                block.index,
                bucket as int,
                chain_result(received),
            ),
    {
        match received {
            Ok(blocks) => {
                self.blocks_cache.put_all(&blocks);
                next_step(source, paths, block.index, BUCKET_COUNT)
            },
            Err(_) => next_step(source, paths, block.index, bucket + 1),
        }
    }

    /// Ends a request for `block` with the block that was fetched from `url`,
    /// or with the error. Only the block that was asked for is taken.
    pub fn block_received(
        &mut self,
        block: &Block,
        url: &ArchiveUrl,
        received: Result<ArchiveBlockData, ReqwestTransactionsFetcherError>,
    ) -> (r: Result<BlockContents, ReqwestTransactionsFetcherError>)
        requires
            old(self).well_formed(),
        ensures
            final(self).well_formed(),
            final(self).client_spec() == old(self).client_spec(),
            contents_result(r) == requested_contents(block@, url@.text, data_result(received)),
            match received {
                Ok(data) => if data.block@ == block@ {
                    r is Ok && r->Ok_0@ == data.block_contents@
                } else {
                    r is Err && r->Err_0@ == ErrorView::InvalidBlockReceived(
                        url@.text,
                        "block data mismatch"@,
                    )
                },
                Err(error) => r is Err && r->Err_0@ == error@,
            },
            final(self)@ == after_received(old(self)@, contents_result(r)),
    {
        match received {
            Err(error) => Err(error),
            Ok(data) => {
                if data.block != *block {
                    return Err(
                        ReqwestTransactionsFetcherError::InvalidBlockReceived(
                            url.text.clone(),
                            "block data mismatch".to_owned(),
                        ),
                    );
                }
                self.misses = self.misses.wrapping_add(1);
                Ok(data.block_contents)
            },
        }
    }
}

/// A fetcher for the given sources that has not been used.
pub open spec fn fresh(source_urls: Seq<UrlView>) -> FetcherView {
    FetcherView {
        source_urls,
        source_index_counter: 0,
        cache: Entries::empty(),
        hits: 0,
        misses: 0,
    }
}

/// The header alone decides whether a block that was fetched is the one that
/// was asked for: where it is the same, its contents are handed out, whatever
/// they are and whatever the signature is; where any field of it is another,
/// the block is refused.
pub proof fn the_header_decides(
    block: BlockView,
    url: Seq<char>,
    data: ArchiveDataView,
    signature: Option<Seq<u8>>,
    error: ErrorView,
)
    ensures
        data.block == block ==> requested_contents(block, url, Ok(data)) == Ok::<_, ErrorView>(
            data.block_contents,
        ),
        data.block != block ==> requested_contents(block, url, Ok(data)) == Err::<Seq<u8>, _>(
            ErrorView::InvalidBlockReceived(url, "block data mismatch"@),
        ),
        requested_contents(block, url, Err(error)) == Err::<Seq<u8>, _>(error),
        requested_contents(block, url, Ok(ArchiveDataView { signature, ..data }))
            == requested_contents(block, url, Ok(data)),
{
}

/// The origin block is handed out as it was read, header and contents.
pub proof fn the_origin_block_is_handed_out_as_read(data: ArchiveDataView, error: ErrorView)
    ensures
        block_and_contents(Ok(data)) is Ok,
        block_and_contents(Ok(data))->Ok_0.0.id == data.block.id,
        block_and_contents(Ok(data))->Ok_0.0.version == data.block.version,
        block_and_contents(Ok(data))->Ok_0.0.parent_id == data.block.parent_id,
        block_and_contents(Ok(data))->Ok_0.0.index == data.block.index,
        block_and_contents(Ok(data))->Ok_0.0.cumulative_txo_count
            == data.block.cumulative_txo_count,
        block_and_contents(Ok(data))->Ok_0.0.root_element == data.block.root_element,
        block_and_contents(Ok(data))->Ok_0.0.contents_hash == data.block.contents_hash,
        block_and_contents(Ok(data))->Ok_0.1 == data.block_contents,
        block_and_contents(Err(error)) == Err::<(BlockView, Seq<u8>), _>(error),
{
}

/// Whether a block that is the same in every field is kept under the identifier
/// of `block`.
pub open spec fn is_kept(cache: Entries, block: BlockView) -> bool {
    lookup(cache, block.id) is Some && lookup(cache, block.id)->0.block == block
}

/// A block that is kept answers with its contents, and no other does.
pub proof fn a_kept_block_answers_with_its_contents(
    fetcher: FetcherView,
    block: BlockView,
    paths: PathsView,
)
    ensures
        is_kept(fetcher.cache, block) ==> first_step(fetcher, block, paths) == StepView::Done(
            Ok(lookup(fetcher.cache, block.id)->0.block_contents),
        ),
        !is_kept(fetcher.cache, block) ==> !(first_step(fetcher, block, paths) matches StepView::Done(
            Ok(_),
        )),
        !is_kept(fetcher.cache, block) ==> first_step(fetcher, block, paths) == step_from(
            source_in_turn(fetcher),
            paths,
            block.index,
            0,
        ),
{
    steps_go_on(source_in_turn(fetcher), paths, block.index, 0);
}

/// What a request changes: the block leaves what is kept, and either a hit is
/// counted or a source has had its turn. The rest stays.
pub proof fn what_a_request_changes(fetcher: FetcherView, block: BlockView)
    ensures
        ({
            let after = after_request(fetcher, block);
            &&& after.cache == fetcher.cache.filter(
                |entry: (Seq<u8>, ArchiveDataView)| entry.0 != block.id,
            )
            &&& after.source_urls == fetcher.source_urls
            &&& after.misses == fetcher.misses
            &&& if is_kept(fetcher.cache, block) {
                &&& after.source_index_counter == fetcher.source_index_counter
                &&& fetcher.hits < u64::MAX ==> after.hits == fetcher.hits + 1
                &&& fetcher.hits == u64::MAX ==> after.hits == 0
            } else {
                &&& after.hits == fetcher.hits
                &&& fetcher.source_index_counter < u64::MAX ==> after.source_index_counter
                    == fetcher.source_index_counter + 1
                &&& fetcher.source_index_counter == u64::MAX ==> after.source_index_counter == 0
            }
        }),
{
    taking_filters(fetcher.cache, block.id);
}

/// What a run of merged blocks changes: its blocks are kept, of which there is
/// room for a hundred thousand, and nothing else changes. A run that was not
/// received changes nothing.
pub proof fn what_a_run_changes(
    fetcher: FetcherView,
    blocks: Seq<ArchiveDataView>,
    error: ErrorView,
)
    ensures
        after_merged(fetcher, Err(error)) == fetcher,
        after_merged(fetcher, Ok(blocks)).cache == with_all_put(fetcher.cache, 100000, blocks),
        after_merged(fetcher, Ok(blocks)).source_urls == fetcher.source_urls,
        after_merged(fetcher, Ok(blocks)).source_index_counter == fetcher.source_index_counter,
        after_merged(fetcher, Ok(blocks)).hits == fetcher.hits,
        after_merged(fetcher, Ok(blocks)).misses == fetcher.misses,
{
}

/// After a run was received, the block is fetched from its own file; after one
/// was not, the smaller sizes are tried, from the same source.
pub proof fn what_comes_after_a_run(
    source: UrlView,
    paths: PathsView,
    index: u64,
    bucket: int,
    blocks: Seq<ArchiveDataView>,
    error: ErrorView,
)
    requires
        0 <= bucket < BUCKET_COUNT,
    ensures
        fetches_block(
            step_after_merged(source, paths, index, bucket, Ok(blocks)),
            source,
            paths.block,
        ),
        ({
            let step = step_after_merged(source, paths, index, bucket, Err(error));
            if bucket == 0 && index as int % 1000 == 0 {
                fetches_run(step, source, 1, paths.merged_1000)
            } else if bucket <= 1 && index as int % 100 == 0 {
                fetches_run(step, source, 2, paths.merged_100)
            } else {
                fetches_block(step, source, paths.block)
            }
        }),
{
    a_block_is_looked_for_in_the_largest_run(source, paths, index, bucket + 1);
}

/// What the end of a request changes: a block that was fetched counts as a miss
/// where it answers, and nothing else changes.
pub proof fn what_the_end_of_a_request_changes(
    fetcher: FetcherView,
    contents: Seq<u8>,
    error: ErrorView,
)
    ensures
        after_received(fetcher, Err(error)) == fetcher,
        after_received(fetcher, Ok(contents)).source_urls == fetcher.source_urls,
        after_received(fetcher, Ok(contents)).source_index_counter
            == fetcher.source_index_counter,
        after_received(fetcher, Ok(contents)).cache == fetcher.cache,
        after_received(fetcher, Ok(contents)).hits == fetcher.hits,
        fetcher.misses < u64::MAX ==> after_received(fetcher, Ok(contents)).misses
            == fetcher.misses + 1,
        fetcher.misses == u64::MAX ==> after_received(fetcher, Ok(contents)).misses == 0,
{
}

/// A fetcher that was not used has its sources, keeps nothing and has counted
/// nothing, so that it is the turn of its first source.
pub proof fn a_new_fetcher_starts_with_its_first_source(source_urls: Seq<UrlView>)
    requires
        source_urls.len() > 0,
    ensures
        fresh(source_urls).source_urls == source_urls,
        fresh(source_urls).cache.len() == 0,
        fresh(source_urls).hits == 0,
        fresh(source_urls).misses == 0,
        source_in_turn(fresh(source_urls)) == source_urls[0],
{
    vstd::arithmetic::div_mod::lemma_small_mod(0, source_urls.len());
}

} // verus!
