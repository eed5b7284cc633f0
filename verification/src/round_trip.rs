//! Writing and reading taken together: what a reader gets of what a writer
//! wrote, and where.

use crate::archive::{
    archive_block_data, is_sound, read_back, reading_gives_back_what_was_written, ArchiveDataView,
    DecodedView, TextsView,
};
use crate::archive_url::UrlView;
use crate::block::BlockView;
use crate::block_path::{
    different_paths_name_different_files, is_block_path, path_joined, slash_separated,
};
use crate::chain::{
    an_accepted_run_is_linked, archive_blocks_data, id_input, id_texts, link_count, link_holds,
    reading_a_run_gives_back_what_was_written, run_received, BlockIdInputView, ComputedIdView,
};
use crate::error::ErrorView;
use crate::fetcher::block_and_contents;
use crate::integrity::ContentsHash;
use crate::transfer::{fetch_source_of, FetchSourceView};
use crate::writer::{
    a_run_lies_at_its_merged_path, archived, is_run, run_directory, writes_file, BlockWriter,
    FileWrite, LocalBlockWriter, RunPathsView,
};
use vstd::prelude::*;

verus! {

/// How it is checked whether a signature is one of a block.
pub type SignatureCheck = spec_fn(Seq<u8>, BlockView) -> Result<(), Seq<char>>;

/// How the identifier of a block is computed.
pub type IdComputation = spec_fn(BlockIdInputView) -> Seq<u8>;

/// What checking the signature of a block gives. There is nothing to check
/// where there is none.
pub open spec fn signature_checked(verify: SignatureCheck, data: ArchiveDataView) -> Result<
    (),
    Seq<char>,
> {
    match data.signature {
        Some(signature) => verify(signature, data.block),
        None => Ok(()),
    }
}

/// What an archived block that was written is read back as.
pub open spec fn decoded_block(
    hash: ContentsHash,
    verify: SignatureCheck,
    archive: Option<ArchiveDataView>,
    shown: TextsView,
) -> Option<DecodedView> {
    match archive {
        Some(data) => Some(
            read_back(data, hash(data.block_contents), signature_checked(verify, data), shown),
        ),
        None => None,
    }
}

/// What a run of archived blocks that was written is read back as.
pub open spec fn decoded_run(
    hash: ContentsHash,
    verify: SignatureCheck,
    archive: Seq<Option<ArchiveDataView>>,
    shown: Seq<TextsView>,
) -> Seq<Option<DecodedView>> {
    Seq::new(archive.len(), |i: int| decoded_block(hash, verify, archive[i], shown[i]))
}

/// The identifiers that are computed for the blocks of a run but the first.
/// How they are shown is left open.
pub open spec fn ids_are_computed(
    compute: IdComputation,
    blocks: Seq<ArchiveDataView>,
    computed: Seq<ComputedIdView>,
) -> bool {
    &&& computed.len() == link_count(blocks.len())
    &&& forall|i: int|
        #![trigger computed[i]]
        0 <= i < computed.len() ==> computed[i].id == compute(
            id_input(blocks[i].block, blocks[i + 1].block),
        )
}

/// Whether a block is one that a reader accepts: its contents have the hash
/// that it names, and its signature, where it has one, is one of the block.
pub open spec fn is_valid(hash: ContentsHash, verify: SignatureCheck, data: ArchiveDataView) -> bool {
    is_sound(data, hash(data.block_contents), signature_checked(verify, data))
}

/// Whether a run of blocks is one that a reader accepts: each of its blocks is,
/// and the identifier of each but the first is computed from the block before.
pub open spec fn is_valid_run(
    hash: ContentsHash,
    verify: SignatureCheck,
    compute: IdComputation,
    blocks: Seq<ArchiveDataView>,
) -> bool {
    &&& forall|i: int| 0 <= i < blocks.len() ==> is_valid(hash, verify, #[trigger] blocks[i])
    &&& forall|i: int|
        #![trigger blocks[i]]
        1 <= i < blocks.len() ==> blocks[i].block.id == compute(
            BlockIdInputView {
                version: blocks[i].block.version,
                parent_id: blocks[i - 1].block.id,
                index: blocks[i].block.index,
                cumulative_txo_count: blocks[i].block.cumulative_txo_count,
                root_element: blocks[i].block.root_element,
                contents_hash: blocks[i].block.contents_hash,
            },
        )
}

/// A block that a local writer wrote is read back: the `file` URL of its path
/// is read from the file that was written, and the block is accepted, as it was
/// written, if and only if it is valid.
pub proof fn a_local_block_is_read_back(
    hash: ContentsHash,
    verify: SignatureCheck,
    writer: LocalBlockWriter,
    data: ArchiveDataView,
    path: Seq<Seq<char>>,
    url: UrlView,
    shown: TextsView,
)
    requires
        url.scheme == "file"@,
        url.host_and_path == path_joined(writer.root(), slash_separated(path)),
    ensures
        fetch_source_of(url) == FetchSourceView::File(
            path_joined(writer.root(), slash_separated(path)),
        ),
        ({
            let read = archive_block_data(
                url.text,
                decoded_block(hash, verify, Some(data), shown),
            );
            if is_valid(hash, verify, data) {
                read == Ok::<_, ErrorView>(data)
            } else {
                read is Err
            }
        }),
{
    reading_gives_back_what_was_written(
        url.text,
        data,
        hash(data.block_contents),
        signature_checked(verify, data),
        shown,
    );
}

/// A run of blocks that a local writer wrote is read back: the `file` URL of the
/// path at which runs are looked for is read from the file that was written,
/// and the run is accepted, block by block as it was written, if and only if it
/// is valid. Runs of `n` blocks must lie in a directory of their own, at the
/// path of their first block.
pub proof fn a_local_run_is_read_back(
    hash: ContentsHash,
    verify: SignatureCheck,
    compute: IdComputation,
    writer: LocalBlockWriter,
    blocks: Seq<ArchiveDataView>,
    paths: RunPathsView,
    url: UrlView,
    shown: Seq<TextsView>,
    computed: Seq<ComputedIdView>,
)
    requires
        is_run(blocks),
        is_block_path(paths.first_block),
        paths.merged == seq![run_directory(blocks.len())] + paths.first_block,
        url.scheme == "file"@,
        url.host_and_path == path_joined(writer.root(), slash_separated(paths.merged)),
        shown.len() == blocks.len(),
        ids_are_computed(compute, blocks, computed),
    ensures
        fetch_source_of(url) == FetchSourceView::File(
            path_joined(
                writer.run_root(blocks.len()),
                slash_separated(writer.run_path(paths)),
            ),
        ),
        ({
            let read = run_received(
                url.text,
                decoded_run(hash, verify, archived(blocks), shown),
                computed,
            );
            if is_valid_run(hash, verify, compute, blocks) {
                read == Ok::<_, ErrorView>(blocks)
            } else {
                read is Err
            }
        }),
{
    a_run_lies_at_its_merged_path(writer, blocks.len(), paths);
    let decoded = decoded_run(hash, verify, archived(blocks), shown);
    let hashes = blocks.map_values(|data: ArchiveDataView| hash(data.block_contents));
    let checks = blocks.map_values(|data: ArchiveDataView| signature_checked(verify, data));
    assert forall|i: int| 0 <= i < blocks.len() implies #[trigger] decoded[i] == Some(
        read_back(blocks[i], hashes[i], checks[i], shown[i]),
    ) by {
        assert(archived(blocks)[i] == Some(blocks[i]));
    }
    reading_a_run_gives_back_what_was_written(url.text, blocks, hashes, checks, shown, decoded);
    if archive_blocks_data(url.text, decoded) is Ok {
        assert forall|i: int| 0 <= i < blocks.len() implies is_valid(
            hash,
            verify,
            #[trigger] blocks[i],
        ) by {
            assert(is_sound(blocks[i], hashes[i], checks[i]));
        }
        an_accepted_run_is_linked(url.text, blocks, id_texts(decoded), computed);
        assert forall|i: int| 1 <= i < blocks.len() implies link_holds(blocks, computed, i) == (
        (#[trigger] blocks[i]).block.id == compute(
            id_input(blocks[i - 1].block, blocks[i].block),
        )) by {
            assert(computed[i - 1].id == compute(id_input(blocks[i - 1].block, blocks[i].block)));
        }
    }
}

/// The files of an archive, by their paths.
pub type Files<A> = Map<Seq<char>, A>;

/// The files after a write.
pub open spec fn after_write<A>(files: Files<A>, write: FileWrite<A>) -> Files<A> {
    files.insert(write.path@, write.archive)
}

/// Writes to different paths do not disturb each other: both files hold what
/// was written, and the order does not matter. Of two writes to the same path
/// the later one alone remains.
pub proof fn writes_do_not_disturb_each_other<A>(
    files: Files<A>,
    root: Seq<char>,
    first: FileWrite<A>,
    first_path: Seq<Seq<char>>,
    second: FileWrite<A>,
    second_path: Seq<Seq<char>>,
)
    requires
        is_block_path(first_path),
        is_block_path(second_path),
        writes_file(first, root, first_path),
        writes_file(second, root, second_path),
    ensures
        ({
            let both = after_write(after_write(files, first), second);
            if first_path != second_path {
                &&& both == after_write(after_write(files, second), first)
                &&& both[first.path@] == first.archive
                &&& both[second.path@] == second.archive
            } else {
                both == after_write(files, second)
            }
        }),
{
    let both = after_write(after_write(files, first), second);
    if first_path != second_path {
        different_paths_name_different_files(root, first_path, second_path);
        assert(both =~= after_write(after_write(files, second), first));
    } else {
        assert(both =~= after_write(files, second));
    }
}

/// The origin block that a writer wrote is handed out unchanged, header and
/// contents, where it is valid, and is refused where it is not.
pub proof fn the_origin_block_is_handed_out_as_written(
    hash: ContentsHash,
    verify: SignatureCheck,
    data: ArchiveDataView,
    url: Seq<char>,
    shown: TextsView,
)
    ensures
        ({
            let read = block_and_contents(
                archive_block_data(url, decoded_block(hash, verify, Some(data), shown)),
            );
            if is_valid(hash, verify, data) {
                read == Ok::<_, ErrorView>((data.block, data.block_contents))
            } else {
                read is Err
            }
        }),
{
    reading_gives_back_what_was_written(
        url,
        data,
        hash(data.block_contents),
        signature_checked(verify, data),
        shown,
    );
}

} // verus!
