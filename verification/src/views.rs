//! The mathematical values that contracts speak of leave nothing out: each is
//! made of all parts of what it stands for, as they are.

use crate::archive::{
    data_result, ArchiveBlock, ArchiveBlockData, BlockTexts, DecodedArchiveBlock,
    DecodedArchiveBlockV1,
};
use crate::archive_url::{url_result, ArchiveUrl};
use crate::block::{signature_view, Block, BlockContents, BlockSignature};
use crate::chain::{
    chain_result, computed_views, data_views, decoded_views, id_texts, BlockIdInput, ComputedId,
};
use crate::error::{ErrorView, ReqwestTransactionsFetcherError};
use crate::sources::{source_result, url_views};
use crate::steps::{contents_result, BlockPaths, FetchStep, StepView};
use crate::text::texts;
use crate::transfer::{bytes_result, FetchSource, FetchSourceView};
use crate::writer::{archive_views, ledger_block_view, ledger_views, LedgerBlock, RunPaths};
use vstd::prelude::*;

verus! {

/// A block is all of its fields: two blocks are the same where every field is.
pub proof fn a_block_is_all_of_its_fields(block: Block, other: Block)
    ensures
        block@.id == block.id@,
        block@.version == block.version,
        block@.parent_id == block.parent_id@,
        block@.index == block.index,
        block@.cumulative_txo_count == block.cumulative_txo_count,
        block@.root_element == block.root_element@,
        block@.contents_hash == block.contents_hash@,
        block@ == other@ <==> {
            &&& block.id@ == other.id@
            &&& block.version == other.version
            &&& block.parent_id@ == other.parent_id@
            &&& block.index == other.index
            &&& block.cumulative_txo_count == other.cumulative_txo_count
            &&& block.root_element@ == other.root_element@
            &&& block.contents_hash@ == other.contents_hash@
        },
{
}

/// Contents and signatures are all of their bytes, and a signature that is
/// missing is told from one that is there.
pub proof fn contents_and_signatures_are_all_of_their_bytes(
    contents: BlockContents,
    signature: BlockSignature,
)
    ensures
        contents@ == contents.data@,
        signature@ == signature.data@,
        signature_view(Some(signature)) == Some(signature.data@),
        signature_view(None) is None,
{
}

/// Archived blocks are all of their parts.
pub proof fn an_archived_block_is_all_of_its_parts(archived: ArchiveBlock, data: ArchiveBlockData)
    ensures
        archived@ is Some <==> archived.v1 is Some,
        archived.v1 matches Some(v1) ==> {
            &&& archived@->0.block == v1.block@
            &&& archived@->0.block_contents == v1.block_contents@
            &&& match v1.signature {
                Some(signature) => archived@->0.signature == Some(signature@),
                None => archived@->0.signature is None,
            }
        },
        data@.block == data.block@,
        data@.block_contents == data.block_contents@,
        match data.signature {
            Some(signature) => data@.signature == Some(signature@),
            None => data@.signature is None,
        },
{
}

/// An archived block that was read back is all of its parts, the faulty ones
/// with what is wrong with them.
pub proof fn a_decoded_block_is_all_of_its_parts(
    decoded: DecodedArchiveBlock,
    v1: DecodedArchiveBlockV1,
    shown: BlockTexts,
)
    ensures
        decoded@ is Some <==> decoded.v1 is Some,
        decoded.v1 is Some ==> decoded@->0 == decoded.v1->0@,
        match v1.block {
            Ok(block) => v1@.block == Ok::<_, Seq<char>>(block@),
            Err(error) => v1@.block is Err && v1@.block->Err_0 == error@,
        },
        match v1.block_contents {
            Ok(contents) => v1@.block_contents == Ok::<_, Seq<char>>(contents@),
            Err(error) => v1@.block_contents is Err && v1@.block_contents->Err_0 == error@,
        },
        match v1.signature {
            Some(Ok(signature)) => v1@.signature == Some(Ok::<_, Seq<char>>(signature@)),
            Some(Err(error)) => v1@.signature is Some && v1@.signature->0 is Err
                && v1@.signature->0->Err_0 == error@,
            None => v1@.signature is None,
        },
        match v1.signature_check {
            Ok(_) => v1@.signature_check is Ok,
            Err(error) => v1@.signature_check is Err && v1@.signature_check->Err_0 == error@,
        },
        v1@.contents_hash == v1.contents_hash@,
        v1@.shown == v1.shown@,
        shown@.block == shown.block@,
        shown@.id == shown.id@,
        shown@.block_contents == shown.block_contents@,
{
}

/// What an identifier is computed from, and what was computed, are all of their
/// parts.
pub proof fn ids_are_all_of_their_parts(input: BlockIdInput, computed: ComputedId)
    ensures
        input@.version == input.version,
        input@.parent_id == input.parent_id@,
        input@.index == input.index,
        input@.cumulative_txo_count == input.cumulative_txo_count,
        input@.root_element == input.root_element@,
        input@.contents_hash == input.contents_hash@,
        computed@.id == computed.id@,
        computed@.shown == computed.shown@,
{
}

/// An error is its kind and its texts.
pub proof fn an_error_is_its_kind_and_its_texts(error: ReqwestTransactionsFetcherError)
    ensures
        match error {
            ReqwestTransactionsFetcherError::UrlParse(place, reason) => error@
                == ErrorView::UrlParse(place@, reason@),
            ReqwestTransactionsFetcherError::ReqwestError(place, reason) => error@
                == ErrorView::ReqwestError(place@, reason@),
            ReqwestTransactionsFetcherError::IO(place, reason) => error@ == ErrorView::IO(
                place@,
                reason@,
            ),
            ReqwestTransactionsFetcherError::InvalidBlockReceived(place, reason) => error@
                == ErrorView::InvalidBlockReceived(place@, reason@),
            ReqwestTransactionsFetcherError::BlockNotFound(place) => error@
                == ErrorView::BlockNotFound(place@),
            ReqwestTransactionsFetcherError::NoUrlsConfigured => error@
                == ErrorView::NoUrlsConfigured,
        },
{
}

/// A URL is all of its texts, and so is the place that is read from.
pub proof fn a_url_is_all_of_its_texts(url: ArchiveUrl, source: FetchSource)
    ensures
        url@.text == url.text@,
        url@.scheme == url.scheme@,
        url@.host_and_path == url.host_and_path@,
        match source {
            FetchSource::File(path) => source@ == FetchSourceView::File(path@),
            FetchSource::Http(text) => source@ == FetchSourceView::Http(text@),
        },
{
}

/// Paths are kept apart by what they are for.
pub proof fn paths_are_kept_apart(paths: BlockPaths, run_paths: RunPaths)
    ensures
        paths@.block == paths.block@,
        paths@.merged_10000 == paths.merged_10000@,
        paths@.merged_1000 == paths.merged_1000@,
        paths@.merged_100 == paths.merged_100@,
        paths@.merged(0) == paths.merged_10000@,
        paths@.merged(1) == paths.merged_1000@,
        paths@.merged(2) == paths.merged_100@,
        run_paths@.first_block == run_paths.first_block@,
        run_paths@.merged == run_paths.merged@,
{
}

/// A step is what is to be done, with all that it takes.
pub proof fn a_step_is_what_is_to_be_done(step: FetchStep)
    ensures
        match step {
            FetchStep::FetchMergedBlocks { source, bucket, url } => step@ == (
            StepView::FetchMergedBlocks { source: source@, bucket: bucket as int, url: url@ }),
            FetchStep::FetchBlock { url } => step@ == (StepView::FetchBlock { url: url@ }),
            FetchStep::Done(Ok(contents)) => step@ == StepView::Done(Ok(contents@)),
            FetchStep::Done(Err(error)) => step@ == StepView::Done(Err(error@)),
        },
{
}

/// A block of the ledger is all of its parts.
pub proof fn a_ledger_block_is_all_of_its_parts(block: LedgerBlock)
    ensures
        ledger_block_view(block).block == block.0@,
        ledger_block_view(block).block_contents == block.1@,
        match block.2 {
            Some(signature) => ledger_block_view(block).signature == Some(signature@),
            None => ledger_block_view(block).signature is None,
        },
{
}

/// Results are told apart, and hold what they hold.
pub proof fn results_hold_what_they_hold(
    data: Result<ArchiveBlockData, ReqwestTransactionsFetcherError>,
    run: Result<Vec<ArchiveBlockData>, ReqwestTransactionsFetcherError>,
    contents: Result<BlockContents, ReqwestTransactionsFetcherError>,
    bytes: Result<Vec<u8>, ReqwestTransactionsFetcherError>,
    source: Result<ArchiveUrl, ReqwestTransactionsFetcherError>,
    url: Result<ArchiveUrl, String>,
)
    ensures
        match data {
            Ok(data_) => data_result(data) == Ok::<_, ErrorView>(data_@),
            Err(error) => data_result(data) is Err && data_result(data)->Err_0 == error@,
        },
        match run {
            Ok(blocks) => {
                &&& chain_result(run) is Ok
                &&& chain_result(run)->Ok_0.len() == blocks@.len()
                &&& forall|i: int|
                    0 <= i < blocks@.len() ==> #[trigger] chain_result(run)->Ok_0[i]
                        == blocks@[i]@
            },
            Err(error) => chain_result(run) is Err && chain_result(run)->Err_0 == error@,
        },
        match contents {
            Ok(contents_) => contents_result(contents) == Ok::<_, ErrorView>(contents_@),
            Err(error) => contents_result(contents) is Err && contents_result(contents)->Err_0
                == error@,
        },
        match bytes {
            Ok(bytes_) => bytes_result(bytes) == Ok::<_, ErrorView>(bytes_@),
            Err(error) => bytes_result(bytes) is Err && bytes_result(bytes)->Err_0 == error@,
        },
        match source {
            Ok(url_) => source_result(source) == Ok::<_, ErrorView>(url_@),
            Err(error) => source_result(source) is Err && source_result(source)->Err_0 == error@,
        },
        match url {
            Ok(url_) => url_result(url) == Ok::<_, Seq<char>>(url_@),
            Err(error) => url_result(url) is Err && url_result(url)->Err_0 == error@,
        },
{
}

/// Lists hold the value of each item, in its place.
pub proof fn lists_hold_each_item(
    data: Seq<ArchiveBlockData>,
    decoded: Seq<DecodedArchiveBlock>,
    computed: Seq<ComputedId>,
    ledger: Seq<LedgerBlock>,
    archived: Seq<ArchiveBlock>,
    urls: Seq<ArchiveUrl>,
    names: Seq<String>,
)
    ensures
        data_views(data).len() == data.len(),
        forall|i: int| 0 <= i < data.len() ==> #[trigger] data_views(data)[i] == data[i]@,
        decoded_views(decoded).len() == decoded.len(),
        forall|i: int|
            0 <= i < decoded.len() ==> #[trigger] decoded_views(decoded)[i] == decoded[i]@,
        id_texts(decoded_views(decoded)).len() == decoded.len(),
        forall|i: int|
            0 <= i < decoded.len() && decoded[i].v1 is Some ==> #[trigger] id_texts(
                decoded_views(decoded),
            )[i] == decoded[i].v1->0.shown.id@,
        computed_views(computed).len() == computed.len(),
        forall|i: int|
            0 <= i < computed.len() ==> #[trigger] computed_views(computed)[i] == computed[i]@,
        ledger_views(ledger).len() == ledger.len(),
        forall|i: int|
            0 <= i < ledger.len() ==> #[trigger] ledger_views(ledger)[i] == ledger_block_view(
                ledger[i],
            ),
        archive_views(archived).len() == archived.len(),
        forall|i: int|
            0 <= i < archived.len() ==> #[trigger] archive_views(archived)[i] == archived[i]@,
        url_views(urls).len() == urls.len(),
        forall|i: int| 0 <= i < urls.len() ==> #[trigger] url_views(urls)[i] == urls[i]@,
        texts(names).len() == names.len(),
        forall|i: int| 0 <= i < names.len() ==> #[trigger] texts(names)[i] == names[i]@,
{
}

} // verus!
