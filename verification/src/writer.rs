//! Writing blocks to an archive.
//!
//! A writer says which file is to be written and what goes into it. Turning
//! that into bytes and storing them is the caller's.

use crate::archive::{create_archive_block, ArchiveBlock, ArchiveDataView};
use crate::block::{copy_bytes, signature_view, Block, BlockContents, BlockSignature};
use crate::block_path::{
    is_block_path, is_entry_name, join_path, path_joined, slash_separated, BlockPath, PathQuery,
};
use crate::text::{decimal, decimal_text};
use vstd::prelude::*;
use vstd::string::StringExecFns;

verus! {

/// A block with its contents and its signature, where it has one.
pub type LedgerBlock = (Block, BlockContents, Option<BlockSignature>);

/// What a `LedgerBlock` is, as a mathematical value.
pub open spec fn ledger_block_view(block: LedgerBlock) -> ArchiveDataView {
    ArchiveDataView {
        block: block.0@,
        block_contents: block.1@,
        signature: signature_view(block.2),
    }
}

/// The values of `blocks`.
pub open spec fn ledger_views(blocks: Seq<LedgerBlock>) -> Seq<ArchiveDataView> {
    blocks.map_values(|block: LedgerBlock| ledger_block_view(block))
}

/// Whether each of `blocks` follows the one before it in the ledger.
pub open spec fn consecutive(blocks: Seq<ArchiveDataView>) -> bool {
    forall|i: int|
        #![trigger blocks[i]]
        1 <= i < blocks.len() ==> blocks[i].block.index == blocks[i - 1].block.index + 1
}

/// Whether `blocks` can be written as a run: they are more than one, and each
/// follows the one before it in the ledger.
pub open spec fn is_run(blocks: Seq<ArchiveDataView>) -> bool {
    &&& blocks.len() > 1
    &&& consecutive(blocks)
}

/// Tells whether `blocks` can be written as a run.
pub fn check_run(blocks: &[LedgerBlock]) -> (ok: bool)
    ensures
        ok == is_run(ledger_views(blocks@)),
{
    let ghost views = ledger_views(blocks@);
    if blocks.len() <= 1 {
        return false;
    }
    let mut i: usize = 1;
    while i < blocks.len()
        invariant
            1 <= i <= blocks@.len(),
            views == ledger_views(blocks@),
            forall|j: int|
                #![trigger views[j]]
                1 <= j < i ==> views[j].block.index == views[j - 1].block.index + 1,
        decreases blocks@.len() - i,
    {
        let before = blocks[i - 1].0.index;
        assert(views[i as int].block.index == blocks@[i as int].0.index);
        assert(views[i - 1].block.index == before);
        if before == u64::MAX || blocks[i].0.index != before + 1 {
            return false;
        }
        i += 1;
    }
    true
}

/// A file that is to be written.
#[derive(Debug)]
pub struct FileWrite<A> {
    /// The directory that the file is in.
    pub directory: String,
    /// The name of the file in its directory.
    pub file_name: String,
    /// The path of the file: the directory and the name.
    pub path: String,
    /// What goes into the file.
    pub archive: A,
}

/// Whether `write` writes the file that has the names `parts` below `root`.
pub open spec fn writes_file<A>(
    write: FileWrite<A>,
    root: Seq<char>,
    parts: Seq<Seq<char>>,
) -> bool {
    &&& write.directory@ == path_joined(root, slash_separated(parts.drop_last()))
    &&& write.file_name@ == parts.last()
    &&& write.path@ == path_joined(root, slash_separated(parts))
}

/// The values of `blocks`.
pub open spec fn archive_views(blocks: Seq<ArchiveBlock>) -> Seq<Option<ArchiveDataView>> {
    blocks.map_values(|block: ArchiveBlock| block@)
}

/// The archived forms of `blocks`.
pub open spec fn archived(blocks: Seq<ArchiveDataView>) -> Seq<Option<ArchiveDataView>> {
    blocks.map_values(|block: ArchiveDataView| Some(block))
}

fn file_write<A>(root: &str, path: &BlockPath, archive: A) -> (write: FileWrite<A>)
    ensures
        writes_file(write, root@, path@),
        write.archive == archive,
{
    FileWrite {
        directory: path.directory_under(root),
        file_name: path.file_name(),
        path: path.file_under(root),
        archive,
    }
}

fn create_archive_blocks(blocks: &[LedgerBlock]) -> (archive_blocks: Vec<ArchiveBlock>)
    ensures
        archive_views(archive_blocks@) == archived(ledger_views(blocks@)),
        archive_blocks@.len() == blocks@.len(),
        forall|i: int|
            #![trigger archive_blocks@[i]]
            0 <= i < blocks@.len() ==> {
                &&& archive_blocks@[i].v1 is Some
                &&& archive_blocks@[i].v1->0.block@ == blocks@[i].0@
                &&& archive_blocks@[i].v1->0.block_contents@ == blocks@[i].1@
                &&& match blocks@[i].2 {
                    Some(signature) => archive_blocks@[i].v1->0.signature is Some
                        && archive_blocks@[i].v1->0.signature->0@ == signature@,
                    None => archive_blocks@[i].v1->0.signature is None,
                }
            },
{
    let ghost all = archived(ledger_views(blocks@));
    let mut archive_blocks: Vec<ArchiveBlock> = Vec::new();
    let mut i: usize = 0;
    while i < blocks.len()
        invariant
            i <= blocks@.len(),
            all == archived(ledger_views(blocks@)),
            archive_views(archive_blocks@) =~= all.take(i as int),
            archive_blocks@.len() == i,
            forall|j: int|
                #![trigger archive_blocks@[j]]
                0 <= j < i ==> {
                    &&& archive_blocks@[j].v1 is Some
                    &&& archive_blocks@[j].v1->0.block@ == blocks@[j].0@
                    &&& archive_blocks@[j].v1->0.block_contents@ == blocks@[j].1@
                    &&& match blocks@[j].2 {
                        Some(signature) => archive_blocks@[j].v1->0.signature is Some
                            && archive_blocks@[j].v1->0.signature->0@ == signature@,
                        None => archive_blocks@[j].v1->0.signature is None,
                    }
                },
        decreases blocks@.len() - i,
    {
        let ghost before = archive_views(archive_blocks@);
        let archive_block = create_archive_block(&blocks[i].0, &blocks[i].1, &blocks[i].2);
        archive_blocks.push(archive_block);
        proof {
            assert(archive_block@ == all[i as int]);
            assert(archive_views(archive_blocks@) =~= before.push(archive_block@));
        }
        i += 1;
    }
    assert(all.take(i as int) =~= all);
    archive_blocks
}

/// Where a run of blocks lies in an archive.
#[derive(Debug)]
pub struct RunPaths {
    /// Where the first of the blocks lies as a single block.
    pub first_block: BlockPath,
    /// Where the run lies, as far as the layout of merged blocks says.
    pub merged: BlockPath,
}

/// What the layout of an archive is asked for to know where a run lies.
#[derive(Clone, Copy, Debug, PartialEq, Eq, Structural)]
pub struct RunPathQueries {
    pub first_block: PathQuery,
    pub merged: PathQuery,
}

/// Says what paths are needed to write `blocks` as a run.
pub fn run_path_queries(blocks: &[LedgerBlock]) -> (queries: RunPathQueries)
    requires
        blocks@.len() > 0,
    ensures
        queries.first_block == (PathQuery::Block { index: blocks@[0].0.index }),
        queries.merged == (PathQuery::Run {
            size: blocks@.len() as u64,
            first: blocks@[0].0.index,
        }),
{
    let first = blocks[0].0.index;
    RunPathQueries {
        first_block: PathQuery::Block { index: first },
        merged: PathQuery::Run { size: blocks.len() as u64, first },
    }
}

/// What a `RunPaths` is, as a mathematical value.
pub struct RunPathsView {
    pub first_block: Seq<Seq<char>>,
    pub merged: Seq<Seq<char>>,
}

impl View for RunPaths {
    type V = RunPathsView;

    open spec fn view(&self) -> RunPathsView {
        RunPathsView { first_block: self.first_block@, merged: self.merged@ }
    }
}

/// A place that blocks are written to.
pub trait BlockWriter {
    /// The root of the archive.
    spec fn root(&self) -> Seq<char>;

    /// The directory below which a run of `n` blocks lies.
    spec fn run_root(&self, n: nat) -> Seq<char>;

    /// Where a run of blocks lies below that directory.
    spec fn run_path(&self, paths: RunPathsView) -> Seq<Seq<char>>;

    /// Says how a single block, which lies at `path`, is written.
    fn write_single_block(
        &self,
        path: &BlockPath,
        block: &Block,
        block_contents: &BlockContents,
        signature: &Option<BlockSignature>,
    ) -> (write: FileWrite<ArchiveBlock>)
        ensures
            writes_file(write, self.root(), path@),
            write.archive@ == Some(
                (ArchiveDataView {
                    block: block@,
                    block_contents: block_contents@,
                    signature: signature_view(*signature),
                }),
            ),
            write.archive.v1 is Some,
            write.archive.v1->0.block@ == block@,
            write.archive.v1->0.block_contents@ == block_contents@,
            match *signature {
                Some(signature) => write.archive.v1->0.signature is Some
                    && write.archive.v1->0.signature->0@ == signature@,
                None => write.archive.v1->0.signature is None,
            },
    ;

    /// Says how a run of blocks is written.
    fn write_multiple_blocks(&self, paths: &RunPaths, blocks: &[LedgerBlock]) -> (write:
        FileWrite<Vec<ArchiveBlock>>)
        requires
            is_run(ledger_views(blocks@)),
        ensures
            writes_file(
                write,
                self.run_root(blocks@.len()),
                self.run_path(paths@),
            ),
            archive_views(write.archive@) == archived(ledger_views(blocks@)),
            write.archive@.len() == blocks@.len(),
            forall|i: int|
                #![trigger write.archive@[i]]
                0 <= i < blocks@.len() ==> {
                    &&& write.archive@[i].v1 is Some
                    &&& write.archive@[i].v1->0.block@ == blocks@[i].0@
                    &&& write.archive@[i].v1->0.block_contents@ == blocks@[i].1@
                    &&& match blocks@[i].2 {
                        Some(signature) => write.archive@[i].v1->0.signature is Some
                            && write.archive@[i].v1->0.signature->0@ == signature@,
                        None => write.archive@[i].v1->0.signature is None,
                    }
                },
    ;
}

/// Writes blocks to S3. The directory of a file is its bucket, its name is its
/// key.
#[derive(Debug)]
pub struct S3BlockWriter {
    path: String,
    region: String,
}

/// A request to store an object in S3.
#[derive(Debug, PartialEq, Eq)]
pub struct PutObject {
    /// The bucket that the object goes into.
    pub bucket: String,
    /// The key of the object in its bucket.
    pub key: String,
    /// The object.
    pub body: Vec<u8>,
    /// Who may do what with it.
    pub acl: String,
}

/// What comes after an attempt to store an object.
#[derive(Debug, PartialEq, Eq)]
pub enum PutStep {
    /// The object is stored.
    Stored,
    /// Try again after a while.
    Retry,
}

impl S3BlockWriter {
    /// The region that the buckets are in.
    pub closed spec fn region_spec(&self) -> Seq<char> {
        self.region@
    }

    /// A writer to the archive at `path`, in the given region.
    pub fn new(path: String, region: String) -> (writer: S3BlockWriter)
        ensures
            writer.root() == path@,
            writer.region_spec() == region@,
    {
        S3BlockWriter { path, region }
    }

    /// The region that the buckets are in.
    pub fn region(&self) -> (region: &str)
        ensures
            region@ == self.region_spec(),
    {
        self.region.as_str()
    }

    /// Makes the request that stores `value` under `filename` in the bucket
    /// `path`, for everyone to read.
    pub fn write_bytes_to_s3(&self, path: &str, filename: &str, value: &Vec<u8>) -> (request:
        PutObject)
        ensures
            request.bucket@ == path@,
            request.key@ == filename@,
            request.body@ == value@,
            request.acl@ == "public-read"@,
    {
        PutObject {
            bucket: path.to_owned(),
            key: filename.to_owned(),
            body: copy_bytes(value),
            acl: "public-read".to_owned(),
        }
    }

    /// Says what comes after an attempt to store an object: it is tried again
    /// until it is stored.
    pub fn after_attempt(&self, attempt: &Result<(), String>) -> (step: PutStep)
        ensures
            step == if attempt is Ok {
                PutStep::Stored
            } else {
                PutStep::Retry
            },
    {
        match attempt {
            Ok(_) => PutStep::Stored,
            Err(_) => PutStep::Retry,
        }
    }
}

impl BlockWriter for S3BlockWriter {
    closed spec fn root(&self) -> Seq<char> {
        self.path@
    }

    open spec fn run_root(&self, n: nat) -> Seq<char> {
        self.root()
    }

    open spec fn run_path(&self, paths: RunPathsView) -> Seq<Seq<char>> {
        paths.merged
    }

    fn write_single_block(
        &self,
        path: &BlockPath,
        block: &Block,
        block_contents: &BlockContents,
        signature: &Option<BlockSignature>,
    ) -> (write: FileWrite<ArchiveBlock>) {
        let archive_block = create_archive_block(block, block_contents, signature);
        file_write(self.path.as_str(), path, archive_block)
    }

    fn write_multiple_blocks(&self, paths: &RunPaths, blocks: &[LedgerBlock]) -> (write:
        FileWrite<Vec<ArchiveBlock>>) {
        let archive_blocks = create_archive_blocks(blocks);
        file_write(self.path.as_str(), &paths.merged, archive_blocks)
    }
}

/// Writes blocks to a local directory.
#[derive(Debug)]
pub struct LocalBlockWriter {
    path: String,
}

/// The name of the directory of the runs of `n` blocks.
pub open spec fn run_directory(n: nat) -> Seq<char> {
    "merged-"@ + decimal(n)
}

impl LocalBlockWriter {
    /// A writer to the archive at `path`.
    pub fn new(path: String) -> (writer: LocalBlockWriter)
        ensures
            writer.root() == path@,
    {
        LocalBlockWriter { path }
    }
}

impl BlockWriter for LocalBlockWriter {
    closed spec fn root(&self) -> Seq<char> {
        self.path@
    }

    open spec fn run_root(&self, n: nat) -> Seq<char> {
        path_joined(self.root(), run_directory(n))
    }

    open spec fn run_path(&self, paths: RunPathsView) -> Seq<Seq<char>> {
        paths.first_block
    }

    fn write_single_block(
        &self,
        path: &BlockPath,
        block: &Block,
        block_contents: &BlockContents,
        signature: &Option<BlockSignature>,
    ) -> (write: FileWrite<ArchiveBlock>) {
        let archive_block = create_archive_block(block, block_contents, signature);
        file_write(self.path.as_str(), path, archive_block)
    }

    fn write_multiple_blocks(&self, paths: &RunPaths, blocks: &[LedgerBlock]) -> (write:
        FileWrite<Vec<ArchiveBlock>>) {
        let archive_blocks = create_archive_blocks(blocks);
        let mut directory = "merged-".to_owned();
        directory.append(decimal_text(blocks.len() as u64).as_str());
        let root = join_path(self.path.as_str(), directory.as_str());
        file_write(root.as_str(), &paths.first_block, archive_blocks)
    }
}

/// A local writer writes a run to the path at which runs are looked for: where
/// runs of `n` blocks lie in a directory of their own, at the path of their
/// first block.
pub proof fn a_run_lies_at_its_merged_path(writer: LocalBlockWriter, n: nat, paths: RunPathsView)
    requires
        is_block_path(paths.first_block),
        paths.merged == seq![run_directory(n)] + paths.first_block,
    ensures
        path_joined(writer.run_root(n), slash_separated(writer.run_path(paths))) == path_joined(
            writer.root(),
            slash_separated(paths.merged),
        ),
        path_joined(writer.run_root(n), slash_separated(writer.run_path(paths).drop_last()))
            == path_joined(writer.root(), slash_separated(paths.merged.drop_last())),
        writer.run_path(paths).last() == paths.merged.last(),
{
    let name = run_directory(n);
    let first = paths.first_block;
    reveal_strlit("merged-");
    assert(name[0] == 'm');
    crate::text::decimal_has_digits(n);
    assert(name.last() == decimal(n).last());
    below_a_directory(writer.root(), name, first);
    let front = first.drop_last();
    assert forall|i: int| 0 <= i < front.len() implies is_entry_name(#[trigger] front[i]) by {
        assert(is_entry_name(first[i]));
    }
    below_a_directory(writer.root(), name, front);
    assert(paths.merged.drop_last() =~= seq![name] + front);
}

/// Both kinds of writers lay an archive out alike: where runs of `n` blocks lie
/// in a directory of their own, at the path of their first block, a run goes
/// into the file of the same path below the root, whichever writer writes it.
pub proof fn writers_agree_on_the_layout(
    s3: S3BlockWriter,
    local: LocalBlockWriter,
    n: nat,
    paths: RunPathsView,
)
    requires
        s3.root() == local.root(),
        is_block_path(paths.first_block),
        paths.merged == seq![run_directory(n)] + paths.first_block,
    ensures
        path_joined(s3.run_root(n), slash_separated(s3.run_path(paths))) == path_joined(
            local.run_root(n),
            slash_separated(local.run_path(paths)),
        ),
        path_joined(s3.run_root(n), slash_separated(s3.run_path(paths).drop_last()))
            == path_joined(
            local.run_root(n),
            slash_separated(local.run_path(paths).drop_last()),
        ),
        s3.run_path(paths).last() == local.run_path(paths).last(),
{
    a_run_lies_at_its_merged_path(local, n, paths);
}

/// Going down to a directory and on to a path in it is going down to the
/// longer path.
proof fn below_a_directory(root: Seq<char>, name: Seq<char>, parts: Seq<Seq<char>>)
    requires
        name.len() > 0,
        name[0] != '/',
        name.last() != '/',
        parts.len() > 0,
        forall|i: int| 0 <= i < parts.len() ==> is_entry_name(#[trigger] parts[i]),
    ensures
        path_joined(root, slash_separated(seq![name] + parts)) == path_joined(
            path_joined(root, name),
            slash_separated(parts),
        ),
{
    separated_below(name, parts);
    crate::block_path::separated_names_are_relative(parts);
    assert(path_joined(root, slash_separated(seq![name] + parts)) =~= path_joined(
        path_joined(root, name),
        slash_separated(parts),
    ));
}

proof fn separated_below(name: Seq<char>, parts: Seq<Seq<char>>)
    requires
        parts.len() > 0,
    ensures
        slash_separated(seq![name] + parts) == name + "/"@ + slash_separated(parts),
    decreases parts.len(),
{
    let all = seq![name] + parts;
    assert(all.drop_last() =~= seq![name] + parts.drop_last());
    if parts.len() == 1 {
        assert(all.drop_last() =~= seq![name]);
        assert(slash_separated(seq![name]) == name);
    } else {
        separated_below(name, parts.drop_last());
        assert(slash_separated(all) =~= name + "/"@ + slash_separated(parts));
    }
}

/// The blocks of a run count up: they are two or more, and each has the index
/// of the first and as many more as blocks come before it.
pub proof fn a_run_counts_up(blocks: Seq<ArchiveDataView>)
    ensures
        is_run(blocks) <==> blocks.len() >= 2 && forall|i: int|
            #![trigger blocks[i]]
            0 <= i < blocks.len() ==> blocks[i].block.index == blocks[0].block.index + i,
{
    if is_run(blocks) {
        assert forall|i: int| 0 <= i < blocks.len() implies (#[trigger] blocks[i]).block.index
            == blocks[0].block.index + i by {
            counts_up_to(blocks, i);
        }
    }
    if blocks.len() >= 2 && forall|i: int|
        #![trigger blocks[i]]
        0 <= i < blocks.len() ==> blocks[i].block.index == blocks[0].block.index + i {
        assert forall|i: int| 1 <= i < blocks.len() implies (#[trigger] blocks[i]).block.index
            == blocks[i - 1].block.index + 1 by {
            assert(blocks[i - 1].block.index == blocks[0].block.index + (i - 1));
        }
    }
}

proof fn counts_up_to(blocks: Seq<ArchiveDataView>, i: int)
    requires
        consecutive(blocks),
        0 <= i < blocks.len(),
    ensures
        blocks[i].block.index == blocks[0].block.index + i,
    decreases i,
{
    if i > 0 {
        counts_up_to(blocks, i - 1);
    }
}

/// Every block of a run is archived, in its place and as it is.
pub proof fn every_block_of_a_run_is_archived(blocks: Seq<ArchiveDataView>)
    ensures
        archived(blocks).len() == blocks.len(),
        forall|i: int|
            0 <= i < blocks.len() ==> #[trigger] archived(blocks)[i] == Some(blocks[i]),
{
}

/// Runs are written below the root: to S3 at their own path, and locally at the
/// path of their first block, in a directory that is named by how many they are.
pub proof fn runs_are_written_below_the_root(
    s3: S3BlockWriter,
    local: LocalBlockWriter,
    n: nat,
    paths: RunPathsView,
)
    ensures
        s3.run_root(n) == s3.root(),
        s3.run_path(paths) == paths.merged,
        local.run_root(n) == path_joined(local.root(), "merged-"@ + decimal(n)),
        local.run_path(paths) == paths.first_block,
{
}

/// A write goes to a file in a directory: the directory and the name make up the
/// path, and the name is the last one below the root.
pub proof fn a_write_goes_to_a_file_in_a_directory<A>(
    write: FileWrite<A>,
    root: Seq<char>,
    parts: Seq<Seq<char>>,
)
    requires
        is_block_path(parts),
        writes_file(write, root, parts),
    ensures
        write.file_name@ == parts[parts.len() - 1],
        write.path@ == write.directory@.push('/') + write.file_name@,
        write.path@ == path_joined(root, slash_separated(parts)),
{
    reveal_strlit("/");
    crate::block_path::file_lies_in_its_directory(root, parts);
    assert(write.directory@ + "/"@ =~= write.directory@.push('/'));
}

} // verus!
