//! Distributing the ledger: which blocks are written to an archive, and when.

use crate::archive::ArchiveDataView;
use crate::archive_url::{url_joined, UrlView};
use crate::block::{Block, BlockContents, BlockIndex, BlockSignature};
use crate::block_path::slash_separated;
use crate::config::StateData;
use crate::steps::{bucket_size_at, merged_fetch, step_from, PathsView};
use crate::text::{decimal, decimal_text};
use crate::writer::{
    is_run, ledger_block_view, ledger_views, BlockWriter, LedgerBlock, RunPathsView, S3BlockWriter,
};
use vstd::prelude::*;
use vstd::string::StringExecFns;

verus! {

/// The sizes of the runs of blocks that are merged into one file.
pub const MERGE_BUCKET_SIZES: [u64; 1] = [10000];

/// How long to wait for new blocks, in milliseconds.
pub const POLL_INTERVAL_MILLIS: u64 = 10;

/// A run of blocks that is to be merged.
#[derive(Clone, Copy, Debug, PartialEq, Eq, Structural)]
pub struct MergedRange {
    /// The first block of the run.
    pub first: BlockIndex,
    /// The last block of the run.
    pub last: BlockIndex,
    /// The block whose signature is stored with every block of the run.
    pub signed: BlockIndex,
}

/// The runs, of the given sizes, that are complete with the block at `index`.
pub open spec fn complete_runs(sizes: Seq<u64>, index: u64, signed: u64) -> Seq<MergedRange>
    decreases sizes.len(),
{
    if sizes.len() == 0 {
        Seq::empty()
    } else {
        let front = complete_runs(sizes.drop_last(), index, signed);
        let size = sizes.last();
        if (index + 1) % size as int == 0 {
            front.push(
                MergedRange { first: (index + 1 - size) as u64, last: index, signed },
            )
        } else {
            front
        }
    }
}

/// Says which runs, of the given sizes, are complete with the block at
/// `index`.
pub fn runs_completed_by(sizes: &[u64], index: BlockIndex, signed: BlockIndex) -> (runs: Vec<
    MergedRange,
>)
    requires
        index < u64::MAX,
        forall|i: int| 0 <= i < sizes@.len() ==> #[trigger] sizes@[i] > 0,
    ensures
        runs@ == complete_runs(sizes@, index, signed),
{
    let mut runs: Vec<MergedRange> = Vec::new();
    let mut i: usize = 0;
    assert(sizes@.take(0) =~= Seq::empty());
    while i < sizes.len()
        invariant
            i <= sizes@.len(),
            index < u64::MAX,
            forall|j: int| 0 <= j < sizes@.len() ==> #[trigger] sizes@[j] > 0,
            runs@ == complete_runs(sizes@.take(i as int), index, signed),
        decreases sizes@.len() - i,
    {
        let size = sizes[i];
        proof {
            let next = sizes@.take(i + 1);
            assert(next.drop_last() =~= sizes@.take(i as int));
            assert(next.last() == size);
        }
        if (index + 1) % size == 0 {
            proof {
                a_complete_run_fits(size as int, index as int);
            }
            runs.push(MergedRange { first: index + 1 - size, last: index, signed });
        }
        i += 1;
    }
    assert(sizes@.take(i as int) =~= sizes@);
    runs
}

proof fn a_complete_run_fits(size: int, index: int)
    requires
        size > 0,
        index >= 0,
        (index + 1) % size == 0,
    ensures
        size <= index + 1,
{
    if index + 1 < size {
        vstd::arithmetic::div_mod::lemma_small_mod((index + 1) as nat, size as nat);
    }
}

/// What comes after the ledger was asked for a block.
#[derive(Debug)]
pub enum PollStep {
    /// The block is not there yet: wait.
    Wait,
    /// The block is there: write these runs, then go on to the next block.
    Write(Vec<MergedRange>),
}

/// The state of the loop that asks the ledger for one block after the other.
#[derive(Debug, PartialEq, Eq)]
pub struct Distributor {
    next_block: BlockIndex,
}

impl Distributor {
    /// The block to ask for.
    pub closed spec fn next(&self) -> BlockIndex {
        self.next_block
    }

    /// Starts at the given block.
    pub fn new(first_desired_block: BlockIndex) -> (distributor: Distributor)
        ensures
            distributor.next() == first_desired_block,
    {
        Distributor { next_block: first_desired_block }
    }

    /// The block to ask for.
    pub fn next_block(&self) -> (index: BlockIndex)
        ensures
            index == self.next(),
    {
        self.next_block
    }

    /// Says what comes after the ledger was asked for the contents and for the
    /// header of a block. Both must be there.
    pub fn polled(&self, contents_found: bool, block: Option<&Block>) -> (step: PollStep)
        requires
            contents_found ==> (block matches Some(block) ==> block.index < u64::MAX),
        ensures
            match step {
                PollStep::Wait => !contents_found || block is None,
                PollStep::Write(runs) => {
                    &&& contents_found
                    &&& block is Some
                    &&& runs@ == complete_runs(MERGE_BUCKET_SIZES@, block->0.index, self.next())
                },
            },
    {
        match block {
            Some(block) => {
                if contents_found {
                    let sizes = MERGE_BUCKET_SIZES;
                    PollStep::Write(runs_completed_by(&sizes, block.index, self.next_block))
                } else {
                    PollStep::Wait
                }
            },
            None => PollStep::Wait,
        }
    }

    /// Goes on to the next block, and says what is to be kept in the state
    /// file.
    pub fn advance(&mut self) -> (state: StateData)
        requires
            old(self).next() < u64::MAX,
        ensures
            final(self).next() == old(self).next() + 1,
            state.next_block == final(self).next(),
    {
        self.next_block = self.next_block + 1;
        StateData { next_block: self.next_block }
    }
}

/// What looking for a signature in the ledger gave.
#[derive(Debug)]
pub enum SignatureLookup {
    /// The signature.
    Found(BlockSignature),
    /// There is none.
    NotFound,
    /// The lookup failed. The text says why.
    Failed(String),
}

/// What the ledger gives for a block of a run: all that is stored of it, or,
/// where something that must be there is not, what is wrong.
pub open spec fn run_block_of(
    index: BlockIndex,
    block: Result<Block, String>,
    block_contents: Result<BlockContents, String>,
    signature: SignatureLookup,
) -> Result<ArchiveDataView, Seq<char>> {
    if block is Err {
        Err("failed getting block #"@ + decimal(index as nat) + ": "@ + block->Err_0@)
    } else if block_contents is Err {
        Err(
            "failed getting block contents #"@ + decimal(index as nat) + ": "@
                + block_contents->Err_0@,
        )
    } else {
        let data = ArchiveDataView {
            block: block->Ok_0@,
            block_contents: block_contents->Ok_0@,
            signature: None,
        };
        match signature {
            SignatureLookup::Found(signature) => Ok(
                ArchiveDataView { signature: Some(signature@), ..data },
            ),
            SignatureLookup::NotFound => Ok(data),
            SignatureLookup::Failed(error) => Err(
                "Failed getting signature for block #"@ + decimal(index as nat) + ": "@ + error@,
            ),
        }
    }
}

fn about_block(start: &str, index: BlockIndex, error: &str) -> (text: String)
    ensures
        text@ == start@ + decimal(index as nat) + ": "@ + error@,
{
    let mut text = start.to_owned();
    text.append(decimal_text(index).as_str());
    text.append(": ");
    text.append(error);
    text
}

/// Puts together what the ledger gives for a block of a run.
pub fn run_block(
    index: BlockIndex,
    block: Result<Block, String>,
    block_contents: Result<BlockContents, String>,
    signature: SignatureLookup,
) -> (r: Result<LedgerBlock, String>)
    ensures
        match r {
            Ok(data) => run_block_of(index, block, block_contents, signature) == Ok::<
                _,
                Seq<char>,
            >(ledger_block_view(data)),
            Err(error) => run_block_of(index, block, block_contents, signature) == Err::<
                ArchiveDataView,
                _,
            >(error@),
        },
        match (block, block_contents, signature) {
            (Ok(block), Ok(block_contents), SignatureLookup::Found(signature)) => {
                &&& r is Ok
                &&& r->Ok_0.0@ == block@
                &&& r->Ok_0.1@ == block_contents@
                &&& r->Ok_0.2 is Some
                &&& r->Ok_0.2->0@ == signature@
            },
            (Ok(block), Ok(block_contents), SignatureLookup::NotFound) => {
                &&& r is Ok
                &&& r->Ok_0.0@ == block@
                &&& r->Ok_0.1@ == block_contents@
                &&& r->Ok_0.2 is None
            },
            _ => r is Err,
        },
{
    let block = match block {
        Ok(block) => block,
        Err(error) => {
            return Err(about_block("failed getting block #", index, error.as_str()));
        },
    };
    let block_contents = match block_contents {
        Ok(block_contents) => block_contents,
        Err(error) => {
            return Err(about_block("failed getting block contents #", index, error.as_str()));
        },
    };
    let signature = match signature {
        SignatureLookup::Found(signature) => Some(signature),
        SignatureLookup::NotFound => None,
        SignatureLookup::Failed(error) => {
            return Err(about_block("Failed getting signature for block #", index, error.as_str()));
        },
    };
    Ok((block, block_contents, signature))
}

/// What is to be looked up in the ledger for a block of a run.
#[derive(Clone, Copy, Debug, PartialEq, Eq, Structural)]
pub struct RunLookup {
    /// The block whose header and contents are wanted.
    pub block: BlockIndex,
    /// The block whose signature is wanted.
    pub signature: BlockIndex,
}

/// The blocks of a run, as they come out of the ledger one by one.
#[derive(Debug)]
pub struct RunCollector {
    run: MergedRange,
    blocks: Vec<LedgerBlock>,
}

impl RunCollector {
    /// The run that is collected.
    pub closed spec fn run(&self) -> MergedRange {
        self.run
    }

    /// The blocks that were collected so far.
    pub closed spec fn collected(&self) -> Seq<ArchiveDataView> {
        ledger_views(self.blocks@)
    }

    /// How many blocks are still missing.
    pub open spec fn missing(&self) -> int {
        self.run().last - self.run().first + 1 - self.collected().len()
    }

    /// Starts to collect a run.
    pub fn new(run: MergedRange) -> (collector: RunCollector)
        ensures
            collector.run() == run,
            collector.collected() == Seq::<ArchiveDataView>::empty(),
    {
        let collector = RunCollector { run, blocks: Vec::new() };
        assert(collector.collected() =~= Seq::empty());
        collector
    }

    /// What is to be looked up next. `None` where the run is complete.
    pub fn next_lookup(&self) -> (lookup: Option<RunLookup>)
        ensures
            if self.missing() > 0 {
                lookup == Some(
                    (RunLookup {
                        block: (self.run().first + self.collected().len()) as u64,
                        signature: self.run().signed,
                    }),
                )
            } else {
                lookup is None
            },
            match lookup {
                Some(lookup) => {
                    &&& lookup.block == self.run().first + self.collected().len()
                    &&& lookup.block <= self.run().last
                    &&& lookup.signature == self.run().signed
                },
                None => self.run().first + self.collected().len() > self.run().last,
            },
    {
        let done = self.blocks.len() as u64;
        if self.run.first > self.run.last || done > self.run.last - self.run.first {
            return None;
        }
        Some(RunLookup { block: self.run.first + done, signature: self.run.signed })
    }

    /// Takes what the ledger gave for the block that was to be looked up. An
    /// error leaves the blocks as they are.
    pub fn add(
        &mut self,
        block: Result<Block, String>,
        block_contents: Result<BlockContents, String>,
        signature: SignatureLookup,
    ) -> (r: Result<(), String>)
        requires
            old(self).missing() > 0,
        ensures
            final(self).run() == old(self).run(),
            match run_block_of(
                (old(self).run().first + old(self).collected().len()) as u64,
                block,
                block_contents,
                signature,
            ) {
                Ok(data) => {
                    &&& r is Ok
                    &&& final(self).collected() == old(self).collected().push(data)
                },
                Err(error) => {
                    &&& r is Err
                    &&& r->Err_0@ == error
                    &&& final(self).collected() == old(self).collected()
                },
            },
            match (block, block_contents, signature) {
                (Ok(block), Ok(block_contents), SignatureLookup::Found(signature)) => {
                    &&& r is Ok
                    &&& final(self).collected() == old(self).collected().push(
                        ArchiveDataView {
                            block: block@,
                            block_contents: block_contents@,
                            signature: Some(signature@),
                        },
                    )
                },
                (Ok(block), Ok(block_contents), SignatureLookup::NotFound) => {
                    &&& r is Ok
                    &&& final(self).collected() == old(self).collected().push(
                        ArchiveDataView {
                            block: block@,
                            block_contents: block_contents@,
                            signature: None,
                        },
                    )
                },
                _ => r is Err && final(self).collected() == old(self).collected(),
            },
    {
        let index = self.run.first + self.blocks.len() as u64;
        match run_block(index, block, block_contents, signature) {
            Ok(data) => {
                let ghost before = self.collected();
                self.blocks.push(data);
                assert(self.collected() =~= before.push(ledger_block_view(data)));
                Ok(())
            },
            Err(error) => Err(error),
        }
    }

    /// Hands the blocks out.
    pub fn blocks(self) -> (blocks: Vec<LedgerBlock>)
        ensures
            ledger_views(blocks@) == self.collected(),
            blocks@.len() == self.collected().len(),
            forall|i: int|
                #![trigger blocks@[i]]
                0 <= i < blocks@.len() ==> {
                    &&& blocks@[i].0@ == self.collected()[i].block
                    &&& blocks@[i].1@ == self.collected()[i].block_contents
                    &&& match blocks@[i].2 {
                        Some(signature) => self.collected()[i].signature == Some(signature@),
                        None => self.collected()[i].signature is None,
                    }
                },
    {
        self.blocks
    }
}

/// A run that is complete has one of the sizes, ends with the block that
/// completes it, and begins at a multiple of its size.
pub proof fn a_complete_run_is_aligned(sizes: Seq<u64>, index: u64, signed: u64, i: int)
    requires
        index < u64::MAX,
        forall|j: int| 0 <= j < sizes.len() ==> #[trigger] sizes[j] > 0,
        0 <= i < complete_runs(sizes, index, signed).len(),
    ensures
        ({
            let run = complete_runs(sizes, index, signed)[i];
            exists|j: int|
                0 <= j < sizes.len() && run.last == index && run.last - run.first + 1
                    == #[trigger] sizes[j] && run.first as int % sizes[j] as int == 0
        }),
    decreases sizes.len(),
{
    let front = complete_runs(sizes.drop_last(), index, signed);
    let run = complete_runs(sizes, index, signed)[i];
    if i < front.len() {
        assert forall|j: int| 0 <= j < sizes.drop_last().len() implies #[trigger]
        sizes.drop_last()[j] > 0 by {
            assert(sizes[j] > 0);
        }
        a_complete_run_is_aligned(sizes.drop_last(), index, signed, i);
        let j = choose|j: int|
            0 <= j < sizes.drop_last().len() && run.last == index && run.last - run.first + 1
                == #[trigger] sizes.drop_last()[j] && run.first as int
                % sizes.drop_last()[j] as int == 0;
        assert(sizes[j] == sizes.drop_last()[j]);
    } else {
        let j = sizes.len() - 1;
        let size = sizes[j] as int;
        assert(size == sizes.last());
        a_complete_run_fits(size, index as int);
        vstd::arithmetic::div_mod::lemma_mod_sub_multiples_vanish(index + 1, size);
        assert(run.first as int % size == 0);
    }
}

/// Of runs of one size, the block at `index` completes one where a multiple of
/// the size ends with it, and else none.
pub proof fn runs_of_one_size(size: u64, index: u64, signed: u64)
    requires
        size > 0,
        index < u64::MAX,
    ensures
        complete_runs(seq![size], index, signed) == if (index + 1) % size as int == 0 {
            seq![MergedRange { first: (index + 1 - size) as u64, last: index, signed }]
        } else {
            Seq::empty()
        },
        (index + 1) % size as int == 0 ==> size <= index + 1,
{
    let sizes = seq![size];
    assert(sizes.drop_last() =~= Seq::empty());
    assert(complete_runs(sizes.drop_last(), index, signed) =~= Seq::empty());
    if (index + 1) % size as int == 0 {
        a_complete_run_fits(size as int, index as int);
    }
    assert(complete_runs(sizes, index, signed) =~= if (index + 1) % size as int == 0 {
        seq![MergedRange { first: (index + 1 - size) as u64, last: index, signed }]
    } else {
        Seq::empty()
    });
}

/// Whether the block at `index` lies in `run`.
pub open spec fn lies_in(index: u64, run: MergedRange) -> bool {
    run.first <= index <= run.last
}

/// The block that completes the run of `size` blocks that the block at `index`
/// lies in.
pub open spec fn completing_block(size: u64, index: u64) -> int {
    (index as int / size as int + 1) * size as int - 1
}

/// Every block is merged exactly once: of the runs of one size that are
/// complete with one block or another, it lies in the run that the last block
/// of its own run completes, and in no other.
pub proof fn every_block_is_merged_once(size: u64, index: u64, signed: u64)
    requires
        size > 0,
    ensures
        completing_block(size, index) < u64::MAX ==> ({
            let runs = complete_runs(seq![size], completing_block(size, index) as u64, signed);
            runs.len() == 1 && lies_in(index, runs[0])
        }),
        forall|completed_by: u64, i: int|
            #![trigger complete_runs(seq![size], completed_by, signed)[i]]
            completed_by < u64::MAX && 0 <= i < complete_runs(
                seq![size],
                completed_by,
                signed,
            ).len() && lies_in(index, complete_runs(seq![size], completed_by, signed)[i])
                ==> completed_by == completing_block(size, index) && i == 0,
{
    let n = size as int;
    let q = index as int / n;
    let end = (q + 1) * n;
    vstd::arithmetic::div_mod::lemma_fundamental_div_mod(index as int, n);
    vstd::arithmetic::div_mod::lemma_mod_multiples_basic(q + 1, n);
    assert(end == n * q + n) by (nonlinear_arith)
        requires
            end == (q + 1) * n,
    ;
    if end - 1 < u64::MAX {
        runs_of_one_size(size, (end - 1) as u64, signed);
    }
    assert forall|completed_by: u64, i: int|
        #![trigger complete_runs(seq![size], completed_by, signed)[i]]
        completed_by < u64::MAX && 0 <= i < complete_runs(
            seq![size],
            completed_by,
            signed,
        ).len() && lies_in(
            index,
            complete_runs(seq![size], completed_by, signed)[i],
        ) implies completed_by == end - 1 && i == 0 by {
        runs_of_one_size(size, completed_by, signed);
        let other_end = completed_by + 1;
        let e = other_end / n;
        vstd::arithmetic::div_mod::lemma_fundamental_div_mod(other_end, n);
        assert(other_end == n * e);
        if e > q + 1 {
            assert(n * e >= end + n) by (nonlinear_arith)
                requires
                    e > q + 1,
                    n > 0,
                    end == (q + 1) * n,
            ;
        } else if e < q + 1 {
            assert(n * e <= n * q) by (nonlinear_arith)
                requires
                    e <= q,
                    n > 0,
            ;
        } else {
            assert(n * e == end) by (nonlinear_arith)
                requires
                    e == q + 1,
                    end == (q + 1) * n,
            ;
        }
    }
}

/// The distribution merges runs of one size.
pub proof fn blocks_are_merged_in_runs_of_one_size()
    ensures
        MERGE_BUCKET_SIZES@ == seq![10000u64],
{
    assert(MERGE_BUCKET_SIZES@ =~= seq![10000u64]);
}

/// A run is looked for where it was written: whoever asks for the first block
/// of a run that was merged first tries a run of that size, at the path below
/// the source that the file of the run has below the root of the archive. The
/// layout of the archive must give the reader and the writer the same path.
pub proof fn a_run_is_looked_for_where_it_was_written(
    index: u64,
    signed: u64,
    i: int,
    writer: S3BlockWriter,
    written: RunPathsView,
    source: UrlView,
    paths: PathsView,
)
    requires
        index < u64::MAX,
        0 <= i < complete_runs(MERGE_BUCKET_SIZES@, index, signed).len(),
        written.merged == paths.merged_10000,
    ensures
        ({
            let run = complete_runs(MERGE_BUCKET_SIZES@, index, signed)[i];
            let n = run.last - run.first + 1;
            let filename = slash_separated(writer.run_path(written));
            &&& n == bucket_size_at(0)
            &&& writer.run_root(n as nat) == writer.root()
            &&& step_from(source, paths, run.first, 0) == merged_fetch(
                source,
                0,
                filename,
                url_joined(source.text, filename),
            )
        }),
{
    let sizes = MERGE_BUCKET_SIZES@;
    assert forall|j: int| 0 <= j < sizes.len() implies #[trigger] sizes[j] > 0 by {}
    a_complete_run_is_aligned(sizes, index, signed, i);
}

/// The blocks of a run can be written as one: where the ledger has each block
/// at its own index, and a run is longer than one block.
pub proof fn a_complete_run_can_be_written(run: MergedRange, blocks: Seq<ArchiveDataView>)
    requires
        run.first < run.last,
        blocks.len() == run.last - run.first + 1,
        forall|i: int|
            #![trigger blocks[i]]
            0 <= i < blocks.len() ==> blocks[i].block.index == run.first + i,
    ensures
        is_run(blocks),
{
}

/// The runs of several sizes are those of each size, in order.
pub proof fn runs_of_several_sizes(first: Seq<u64>, then: Seq<u64>, index: u64, signed: u64)
    ensures
        complete_runs(first + then, index, signed) == complete_runs(first, index, signed)
            + complete_runs(then, index, signed),
        complete_runs(Seq::empty(), index, signed) == Seq::<MergedRange>::empty(),
    decreases then.len(),
{
    if then.len() == 0 {
        assert(first + then =~= first);
        assert(complete_runs(first, index, signed) + complete_runs(then, index, signed)
            =~= complete_runs(first, index, signed));
    } else {
        runs_of_several_sizes(first, then.drop_last(), index, signed);
        assert((first + then).drop_last() =~= first + then.drop_last());
        assert((first + then).last() == then.last());
        assert(complete_runs(first + then, index, signed) =~= complete_runs(first, index, signed)
            + complete_runs(then, index, signed));
    }
}

/// What the ledger gives for a block goes into the run as it is: the header, the
/// contents, and the signature where there is one.
pub proof fn what_the_ledger_gives_goes_into_the_run(
    index: BlockIndex,
    block: Block,
    block_contents: BlockContents,
    signature: BlockSignature,
)
    ensures
        run_block_of(
            index,
            Ok(block),
            Ok(block_contents),
            SignatureLookup::Found(signature),
        ) == Ok::<_, Seq<char>>(
            ArchiveDataView {
                block: block@,
                block_contents: block_contents@,
                signature: Some(signature@),
            },
        ),
        run_block_of(index, Ok(block), Ok(block_contents), SignatureLookup::NotFound) == Ok::<
            _,
            Seq<char>,
        >(
            ArchiveDataView {
                block: block@,
                block_contents: block_contents@,
                signature: None,
            },
        ),
{
}

/// Whether a block has a signature makes no difference to what else goes into
/// the run.
pub proof fn a_signature_changes_nothing_else(
    index: BlockIndex,
    block: Result<Block, String>,
    block_contents: Result<BlockContents, String>,
    signature: BlockSignature,
)
    ensures
        match run_block_of(index, block, block_contents, SignatureLookup::NotFound) {
            Ok(unsigned) => {
                &&& unsigned.signature is None
                &&& run_block_of(index, block, block_contents, SignatureLookup::Found(signature))
                    == Ok::<_, Seq<char>>(
                    ArchiveDataView { signature: Some(signature@), ..unsigned },
                )
            },
            Err(error) => run_block_of(
                index,
                block,
                block_contents,
                SignatureLookup::Found(signature),
            ) == Err::<ArchiveDataView, _>(error),
        },
{
}

/// What the ledger does not have is reported with the block that it was looked
/// up for: the header first, then the contents, then the signature.
pub proof fn what_is_missing_is_reported(
    index: BlockIndex,
    block: Result<Block, String>,
    block_contents: Result<BlockContents, String>,
    signature: SignatureLookup,
)
    ensures
        ({
            let about = decimal(index as nat) + ": "@;
            match run_block_of(index, block, block_contents, signature) {
                Ok(_) => block is Ok && block_contents is Ok && !(signature is Failed),
                Err(error) => match (block, block_contents, signature) {
                    (Err(reason), _, _) => error == "failed getting block #"@ + about + reason@,
                    (Ok(_), Err(reason), _) => error == "failed getting block contents #"@ + about
                        + reason@,
                    (Ok(_), Ok(_), SignatureLookup::Failed(reason)) => error
                        == "Failed getting signature for block #"@ + about + reason@,
                    _ => false,
                },
            }
        }),
{
    let about = decimal(index as nat) + ": "@;
    if let Err(reason) = block {
        assert("failed getting block #"@ + decimal(index as nat) + ": "@ + reason@
            =~= "failed getting block #"@ + about + reason@);
    } else if let Err(reason) = block_contents {
        assert("failed getting block contents #"@ + decimal(index as nat) + ": "@ + reason@
            =~= "failed getting block contents #"@ + about + reason@);
    } else if let SignatureLookup::Failed(reason) = signature {
        assert("Failed getting signature for block #"@ + decimal(index as nat) + ": "@ + reason@
            =~= "Failed getting signature for block #"@ + about + reason@);
    }
}

/// What the ledger gives for a block.
pub struct LedgerAnswer {
    pub block: Result<Block, String>,
    pub block_contents: Result<BlockContents, String>,
    pub signature: SignatureLookup,
}

/// What is collected of a run that begins at `first` once the ledger gave
/// `answers` for its blocks, one after the other.
pub open spec fn collected_of(first: BlockIndex, answers: Seq<LedgerAnswer>) -> Seq<
    ArchiveDataView,
>
    decreases answers.len(),
{
    if answers.len() == 0 {
        Seq::empty()
    } else {
        let front = collected_of(first, answers.drop_last());
        let answer = answers.last();
        match run_block_of(
            (first + front.len()) as u64,
            answer.block,
            answer.block_contents,
            answer.signature,
        ) {
            Ok(data) => front.push(data),
            Err(_) => front,
        }
    }
}

/// Over a whole run, each block is collected in its place with what the ledger
/// gave for it.
pub proof fn a_run_holds_what_the_ledger_gave(
    first: BlockIndex,
    answers: Seq<LedgerAnswer>,
    i: int,
)
    requires
        0 <= i < answers.len(),
        forall|j: int|
            #![trigger answers[j]]
            0 <= j < answers.len() ==> answers[j].block is Ok && answers[j].block_contents is Ok
                && !(answers[j].signature is Failed),
    ensures
        collected_of(first, answers).len() == answers.len(),
        collected_of(first, answers)[i].block == answers[i].block->Ok_0@,
        collected_of(first, answers)[i].block_contents == answers[i].block_contents->Ok_0@,
        match answers[i].signature {
            SignatureLookup::Found(signature) => collected_of(first, answers)[i].signature == Some(
                signature@,
            ),
            _ => collected_of(first, answers)[i].signature is None,
        },
    decreases answers.len(),
{
    let front = answers.drop_last();
    let n = answers.len() - 1;
    assert(answers[n] == answers.last());
    assert forall|j: int| 0 <= j < front.len() implies (#[trigger] front[j]).block is Ok
        && front[j].block_contents is Ok && !(front[j].signature is Failed) by {
        assert(answers[j].block is Ok);
    }
    if n == 0 {
        assert(collected_of(first, front) =~= Seq::empty());
    } else if i < n {
        a_run_holds_what_the_ledger_gave(first, front, i);
    } else {
        a_run_holds_what_the_ledger_gave(first, front, 0);
    }
}

/// A run is collected from its first block to its last: a block is missing as
/// long as the next one is not behind the end of the run.
pub proof fn a_run_is_collected_to_its_end(collector: RunCollector)
    ensures
        collector.missing() > 0 <==> collector.run().first + collector.collected().len()
            <= collector.run().last,
        collector.missing() == 0 <==> collector.collected().len() == collector.run().last + 1
            - collector.run().first,
{
}

/// The ledger is asked for new blocks a hundred times a second.
pub proof fn the_ledger_is_asked_often()
    ensures
        100 * POLL_INTERVAL_MILLIS == 1000,
{
}

} // verus!
