//! Runs of archived blocks, and the links between them.

use crate::archive::{
    archive_block_data, is_sound, read_back, reading_gives_back_what_was_written,
    ArchiveBlockData, ArchiveDataView, DecodedArchiveBlock, DecodedView, TextsView,
};
use crate::archive_url::{ArchiveUrl, UrlView};
use crate::block::{copy_bytes, BlockID, BlockIndex, BlockView};
use crate::error::{ErrorView, ReqwestTransactionsFetcherError};
use crate::text::{decimal, decimal_text, same_bytes, texts};
use vstd::prelude::*;
use vstd::string::StringExecFns;

verus! {

/// The values of `blocks`.
pub open spec fn data_views(blocks: Seq<ArchiveBlockData>) -> Seq<ArchiveDataView> {
    blocks.map_values(|data: ArchiveBlockData| data@)
}

/// The values of `blocks`.
pub open spec fn decoded_views(blocks: Seq<DecodedArchiveBlock>) -> Seq<Option<DecodedView>> {
    blocks.map_values(|decoded: DecodedArchiveBlock| decoded@)
}

/// What is made of a run of archived blocks that was read from `url`: all of
/// them, or the error of the first that is refused.
pub open spec fn archive_blocks_data(url: Seq<char>, decoded: Seq<Option<DecodedView>>) -> Result<
    Seq<ArchiveDataView>,
    ErrorView,
>
    decreases decoded.len(),
{
    if decoded.len() == 0 {
        Ok(Seq::empty())
    } else {
        match archive_blocks_data(url, decoded.drop_last()) {
            Err(error) => Err(error),
            Ok(front) => match archive_block_data(url, decoded.last()) {
                Err(error) => Err(error),
                Ok(data) => Ok(front.push(data)),
            },
        }
    }
}

/// What the identifier of a block is computed from. The contents of a block
/// take part through their hash, the block before it through its identifier.
#[derive(Debug, PartialEq, Eq)]
pub struct BlockIdInput {
    pub version: u32,
    pub parent_id: BlockID,
    pub index: BlockIndex,
    pub cumulative_txo_count: u64,
    pub root_element: Vec<u8>,
    pub contents_hash: Vec<u8>,
}

/// What a `BlockIdInput` is, as a mathematical value.
#[verifier::ext_equal]
pub struct BlockIdInputView {
    pub version: u32,
    pub parent_id: Seq<u8>,
    pub index: BlockIndex,
    pub cumulative_txo_count: u64,
    pub root_element: Seq<u8>,
    pub contents_hash: Seq<u8>,
}

impl View for BlockIdInput {
    type V = BlockIdInputView;

    open spec fn view(&self) -> BlockIdInputView {
        BlockIdInputView {
            version: self.version,
            parent_id: self.parent_id@,
            index: self.index,
            cumulative_txo_count: self.cumulative_txo_count,
            root_element: self.root_element@,
            contents_hash: self.contents_hash@,
        }
    }
}

/// What the identifier of `block` must be computed from where it follows
/// `parent`. The parent's identifier is the one that the parent bears, not the
/// one that the block names.
pub open spec fn id_input(parent: BlockView, block: BlockView) -> BlockIdInputView {
    BlockIdInputView {
        version: block.version,
        parent_id: parent.id,
        index: block.index,
        cumulative_txo_count: block.cumulative_txo_count,
        root_element: block.root_element,
        contents_hash: block.contents_hash,
    }
}

/// How many links a run of `n` blocks has.
pub open spec fn link_count(n: nat) -> nat {
    if n == 0 {
        0
    } else {
        (n - 1) as nat
    }
}

/// An identifier that was computed for a block.
#[derive(Debug)]
pub struct ComputedId {
    /// The identifier.
    pub id: BlockID,
    /// How `{:?}` shows it.
    pub shown: String,
}

/// What a `ComputedId` is, as a mathematical value.
#[verifier::ext_equal]
pub struct ComputedIdView {
    pub id: Seq<u8>,
    pub shown: Seq<char>,
}

impl View for ComputedId {
    type V = ComputedIdView;

    open spec fn view(&self) -> ComputedIdView {
        ComputedIdView { id: self.id@, shown: self.shown@ }
    }
}

/// The values of `ids`.
pub open spec fn computed_views(ids: Seq<ComputedId>) -> Seq<ComputedIdView> {
    ids.map_values(|id: ComputedId| id@)
}

/// Whether the block at `i` bears the identifier that was computed for it.
/// The identifier of the block at `i` is at `i - 1`: the first block has none.
pub open spec fn link_holds(
    blocks: Seq<ArchiveDataView>,
    computed: Seq<ComputedIdView>,
    i: int,
) -> bool {
    computed[i - 1].id == blocks[i].block.id
}

/// The place, from `from` on, of the first block that bears another identifier
/// than was computed for it.
pub open spec fn first_broken_link(
    blocks: Seq<ArchiveDataView>,
    computed: Seq<ComputedIdView>,
    from: int,
) -> Option<int>
    decreases blocks.len() - from,
{
    if from >= blocks.len() {
        None
    } else if !link_holds(blocks, computed, from) {
        Some(from)
    } else {
        first_broken_link(blocks, computed, from + 1)
    }
}

/// Why a block that bears another identifier than the expected one is refused.
/// The two are given as they are shown.
pub open spec fn id_mismatch(
    block: BlockView,
    expected_shown: Seq<char>,
    id_shown: Seq<char>,
) -> Seq<char> {
    "block id mismatch for block #"@ + decimal(block.index as nat) + " ("@ + expected_shown
        + " != "@ + id_shown + ")"@
}

/// What is made of a run of blocks from `url`, once the identifier of each
/// but the first has been computed. `id_texts` are the identifiers that the
/// blocks bear, as they are shown.
pub open spec fn checked_chain(
    url: Seq<char>,
    blocks: Seq<ArchiveDataView>,
    id_texts: Seq<Seq<char>>,
    computed: Seq<ComputedIdView>,
) -> Result<Seq<ArchiveDataView>, ErrorView> {
    match first_broken_link(blocks, computed, 1) {
        None => Ok(blocks),
        Some(i) => Err(
            ErrorView::InvalidBlockReceived(
                url,
                id_mismatch(blocks[i].block, computed[i - 1].shown, id_texts[i]),
            ),
        ),
    }
}

/// The identifiers that archived blocks bear, as they are shown.
pub open spec fn id_texts(decoded: Seq<Option<DecodedView>>) -> Seq<Seq<char>> {
    decoded.map_values(|decoded: Option<DecodedView>| decoded->0.shown.id)
}

/// What is made of a run of archived blocks that was read from `url`, once the
/// identifier of each block but the first has been computed.
pub open spec fn run_received(
    url: Seq<char>,
    decoded: Seq<Option<DecodedView>>,
    computed: Seq<ComputedIdView>,
) -> Result<Seq<ArchiveDataView>, ErrorView> {
    match archive_blocks_data(url, decoded) {
        Ok(blocks) => checked_chain(url, blocks, id_texts(decoded), computed),
        Err(error) => Err(error),
    }
}

/// A run of blocks, or the error, as a mathematical value.
pub open spec fn chain_result(
    r: Result<Vec<ArchiveBlockData>, ReqwestTransactionsFetcherError>,
) -> Result<Seq<ArchiveDataView>, ErrorView> {
    match r {
        Ok(blocks) => Ok(data_views(blocks@)),
        Err(error) => Err(error@),
    }
}

/// A run of blocks of which each one was checked, but not yet the links
/// between them.
#[derive(Debug)]
pub struct UnlinkedBlocks {
    url: ArchiveUrl,
    blocks: Vec<ArchiveBlockData>,
    id_texts: Vec<String>,
}

impl UnlinkedBlocks {
    #[verifier::type_invariant]
    spec fn well_formed(&self) -> bool {
        self.blocks@.len() == self.id_texts@.len()
    }

    /// The URL that the blocks were read from.
    pub closed spec fn source(&self) -> UrlView {
        self.url@
    }

    /// The blocks.
    pub closed spec fn blocks(&self) -> Seq<ArchiveDataView> {
        data_views(self.blocks@)
    }

    /// The identifiers that the blocks bear, as they are shown.
    pub closed spec fn id_texts(&self) -> Seq<Seq<char>> {
        texts(self.id_texts@)
    }

    /// Checks each of a run of archived blocks that was read from a URL.
    pub fn new(url: &ArchiveUrl, archive_blocks: &Vec<DecodedArchiveBlock>) -> (r: Result<
        UnlinkedBlocks,
        ReqwestTransactionsFetcherError,
    >)
        ensures
            match r {
                Ok(unlinked) => {
                    &&& archive_blocks_data(url@.text, decoded_views(archive_blocks@)) == Ok::<
                        _,
                        ErrorView,
                    >(unlinked.blocks())
                    &&& unlinked.id_texts() == id_texts(decoded_views(archive_blocks@))
                    &&& unlinked.source() == url@
                },
                Err(error) => archive_blocks_data(url@.text, decoded_views(archive_blocks@))
                    == Err::<Seq<ArchiveDataView>, _>(error@),
            },
    {
        let ghost decoded = decoded_views(archive_blocks@);
        let mut blocks: Vec<ArchiveBlockData> = Vec::new();
        let mut shown: Vec<String> = Vec::new();
        let mut i: usize = 0;
        assert(decoded.take(0) =~= Seq::empty());
        assert(data_views(blocks@) =~= Seq::empty());
        while i < archive_blocks.len()
            invariant
                i <= archive_blocks@.len(),
                blocks@.len() == i,
                texts(shown@) =~= id_texts(decoded).take(i as int),
                decoded == decoded_views(archive_blocks@),
                archive_blocks_data(url@.text, decoded.take(i as int)) == Ok::<_, ErrorView>(
                    data_views(blocks@),
                ),
            decreases archive_blocks@.len() - i,
        {
            let ghost before = data_views(blocks@);
            let ghost next = decoded.take(i + 1);
            proof {
                assert(next.drop_last() =~= decoded.take(i as int));
                assert(next.last() == archive_blocks@[i as int]@);
            }
            match ArchiveBlockData::try_from((url, &archive_blocks[i])) {
                Ok(data) => {
                    blocks.push(data);
                    assert(data_views(blocks@) =~= before.push(data@));
                    if let Some(v1) = &archive_blocks[i].v1 {
                        let ghost shown_before = texts(shown@);
                        let id_text = v1.shown.id.clone();
                        shown.push(id_text);
                        assert(texts(shown@) =~= shown_before.push(id_text@));
                        assert(id_texts(decoded)[i as int] == id_text@);
                    }
                },
                Err(error) => {
                    proof {
                        error_of_a_part(url@.text, decoded, i + 1);
                    }
                    return Err(error);
                },
            }
            i += 1;
        }
        assert(decoded.take(i as int) =~= decoded);
        assert(texts(shown@).len() == shown@.len());
        assert(id_texts(decoded).take(i as int) =~= id_texts(decoded));
        Ok(UnlinkedBlocks { url: url.clone(), blocks, id_texts: shown })
    }

    /// What the identifier of each block but the first must be computed from.
    pub fn id_inputs(&self) -> (inputs: Vec<BlockIdInput>)
        ensures
            inputs@.len() == link_count(self.blocks().len()),
            forall|i: int|
                #![trigger inputs@[i]]
                0 <= i < inputs@.len() ==> inputs@[i]@ == id_input(
                    self.blocks()[i].block,
                    self.blocks()[i + 1].block,
                ),
            self.blocks().len() == 0 ==> inputs@.len() == 0,
            self.blocks().len() > 0 ==> inputs@.len() == self.blocks().len() - 1,
            forall|i: int|
                #![trigger inputs@[i]]
                0 <= i < inputs@.len() ==> {
                    &&& inputs@[i].parent_id@ == self.blocks()[i].block.id
                    &&& inputs@[i].version == self.blocks()[i + 1].block.version
                    &&& inputs@[i].index == self.blocks()[i + 1].block.index
                    &&& inputs@[i].cumulative_txo_count == self.blocks()[i
                        + 1].block.cumulative_txo_count
                    &&& inputs@[i].root_element@ == self.blocks()[i + 1].block.root_element
                    &&& inputs@[i].contents_hash@ == self.blocks()[i + 1].block.contents_hash
                },
    {
        let mut inputs: Vec<BlockIdInput> = Vec::new();
        let mut i: usize = 1;
        while i < self.blocks.len()
            invariant
                1 <= i,
                inputs@.len() == i - 1,
                i > 1 ==> i <= self.blocks@.len(),
                forall|j: int|
                    #![trigger inputs@[j]]
                    0 <= j < inputs@.len() ==> inputs@[j]@ == id_input(
                        self.blocks()[j].block,
                        self.blocks()[j + 1].block,
                    ),
            decreases self.blocks@.len() - i,
        {
            let parent_block = &self.blocks[i - 1].block;
            let block = &self.blocks[i].block;
            let input = BlockIdInput {
                version: block.version,
                parent_id: copy_bytes(&parent_block.id),
                index: block.index,
                cumulative_txo_count: block.cumulative_txo_count,
                root_element: copy_bytes(&block.root_element),
                contents_hash: copy_bytes(&block.contents_hash),
            };
            assert(input@ =~= id_input(self.blocks()[i - 1].block, self.blocks()[i as int].block));
            inputs.push(input);
            i += 1;
        }
        inputs
    }

    /// Checks the links, given the identifier that was computed for each block
    /// but the first, and hands the blocks out.
    pub fn check(self, expected_ids: &Vec<ComputedId>) -> (r: Result<
        Vec<ArchiveBlockData>,
        ReqwestTransactionsFetcherError,
    >)
        requires
            expected_ids@.len() == link_count(self.blocks().len()),
        ensures
            chain_result(r) == checked_chain(
                self.source().text,
                self.blocks(),
                self.id_texts(),
                computed_views(expected_ids@),
            ),
    {
        proof {
            use_type_invariant(&self);
        }
        let ghost computed = computed_views(expected_ids@);
        let mut i: usize = 1;
        while i < self.blocks.len()
            invariant
                1 <= i,
                self.blocks@.len() == self.id_texts@.len(),
                expected_ids@.len() == link_count(self.blocks().len()),
                computed == computed_views(expected_ids@),
                first_broken_link(self.blocks(), computed, 1) == first_broken_link(
                    self.blocks(),
                    computed,
                    i as int,
                ),
            decreases self.blocks@.len() - i,
        {
            let block = &self.blocks[i].block;
            let expected = &expected_ids[i - 1];
            assert(self.blocks()[i as int].block == block@);
            assert(computed[i - 1] == expected@);
            if !same_bytes(&expected.id, &block.id) {
                let mut reason = "block id mismatch for block #".to_owned();
                reason.append(decimal_text(block.index).as_str());
                reason.append(" (");
                reason.append(expected.shown.as_str());
                reason.append(" != ");
                reason.append(self.id_texts[i].as_str());
                reason.append(")");
                return Err(
                    ReqwestTransactionsFetcherError::InvalidBlockReceived(
                        self.url.text.clone(),
                        reason,
                    ),
                );
            }
            i += 1;
        }
        Ok(self.blocks)
    }
}

/// Where the first blocks of a run give an error, the run gives it too.
proof fn error_of_a_part(url: Seq<char>, decoded: Seq<Option<DecodedView>>, n: int)
    requires
        0 <= n <= decoded.len(),
        archive_blocks_data(url, decoded.take(n)) is Err,
    ensures
        archive_blocks_data(url, decoded) == archive_blocks_data(url, decoded.take(n)),
    decreases decoded.len() - n,
{
    if n == decoded.len() {
        assert(decoded.take(n) =~= decoded);
    } else {
        assert(decoded.take(n + 1).drop_last() =~= decoded.take(n));
        error_of_a_part(url, decoded, n + 1);
    }
}

/// A run of blocks is accepted if and only if every block but the first bears
/// the identifier that was computed for it, and is then handed out unchanged.
pub proof fn an_accepted_run_is_linked(
    url: Seq<char>,
    blocks: Seq<ArchiveDataView>,
    id_texts: Seq<Seq<char>>,
    computed: Seq<ComputedIdView>,
)
    ensures
        checked_chain(url, blocks, id_texts, computed) is Ok <==> forall|i: int|
            1 <= i < blocks.len() ==> link_holds(blocks, computed, i),
        checked_chain(url, blocks, id_texts, computed) matches Ok(accepted) ==> accepted == blocks,
{
    broken_link_is_first(blocks, computed, 1);
}

proof fn broken_link_is_first(
    blocks: Seq<ArchiveDataView>,
    computed: Seq<ComputedIdView>,
    from: int,
)
    ensures
        match first_broken_link(blocks, computed, from) {
            None => forall|i: int| from <= i < blocks.len() ==> link_holds(blocks, computed, i),
            Some(broken) => {
                &&& from <= broken < blocks.len()
                &&& !link_holds(blocks, computed, broken)
                &&& forall|i: int| from <= i < broken ==> link_holds(blocks, computed, i)
            },
        },
    decreases blocks.len() - from,
{
    if from < blocks.len() && link_holds(blocks, computed, from) {
        broken_link_is_first(blocks, computed, from + 1);
    }
}

/// Reading a run of merged blocks gives back what was written, block by block
/// and in order: a run that is read back part by part is accepted, as it was
/// written, if and only if the contents of each block have the hash that it
/// names and its signature, where it has one, is one of the block.
pub proof fn reading_a_run_gives_back_what_was_written(
    url: Seq<char>,
    archived: Seq<ArchiveDataView>,
    contents_hashes: Seq<Seq<u8>>,
    signature_checks: Seq<Result<(), Seq<char>>>,
    shown: Seq<TextsView>,
    decoded: Seq<Option<DecodedView>>,
)
    requires
        contents_hashes.len() == archived.len(),
        signature_checks.len() == archived.len(),
        shown.len() == archived.len(),
        decoded.len() == archived.len(),
        forall|i: int|
            #![trigger decoded[i]]
            0 <= i < archived.len() ==> decoded[i] == Some(
                read_back(archived[i], contents_hashes[i], signature_checks[i], shown[i]),
            ),
    ensures
        if forall|i: int|
            #![trigger archived[i]]
            0 <= i < archived.len() ==> is_sound(
                archived[i],
                contents_hashes[i],
                signature_checks[i],
            ) {
            archive_blocks_data(url, decoded) == Ok::<_, ErrorView>(archived)
        } else {
            archive_blocks_data(url, decoded) is Err
        },
    decreases archived.len(),
{
    if archived.len() == 0 {
        assert(archived =~= Seq::empty());
    } else {
        let n = archived.len() - 1;
        let front = archived.drop_last();
        let front_hashes = contents_hashes.drop_last();
        let front_checks = signature_checks.drop_last();
        let front_shown = shown.drop_last();
        assert forall|i: int| 0 <= i < n implies #[trigger] decoded.drop_last()[i] == Some(
            read_back(front[i], front_hashes[i], front_checks[i], front_shown[i]),
        ) by {
            assert(decoded[i] == decoded.drop_last()[i]);
        }
        reading_a_run_gives_back_what_was_written(
            url,
            front,
            front_hashes,
            front_checks,
            front_shown,
            decoded.drop_last(),
        );
        assert(decoded[n] == decoded.last());
        reading_gives_back_what_was_written(
            url,
            archived[n],
            contents_hashes[n],
            signature_checks[n],
            shown[n],
        );
        assert(forall|i: int| 0 <= i < n ==> #[trigger] front[i] == archived[i]);
        assert(forall|i: int| 0 <= i < n ==> #[trigger] archived[i] == front[i]);
        assert(front.push(archived[n]) =~= archived);
    }
}

/// A run is taken block by block: where every block is accepted by itself, the
/// run is all of them in order; else it gives the error of the first that is
/// not.
pub proof fn a_run_is_taken_block_by_block(url: Seq<char>, decoded: Seq<Option<DecodedView>>)
    ensures
        match archive_blocks_data(url, decoded) {
            Ok(blocks) => {
                &&& blocks.len() == decoded.len()
                &&& forall|i: int|
                    #![trigger blocks[i]]
                    0 <= i < blocks.len() ==> archive_block_data(url, decoded[i]) == Ok::<
                        _,
                        ErrorView,
                    >(blocks[i])
            },
            Err(error) => exists|i: int|
                #![trigger decoded[i]]
                {
                    &&& 0 <= i < decoded.len()
                    &&& archive_block_data(url, decoded[i]) == Err::<ArchiveDataView, _>(error)
                    &&& forall|j: int|
                        #![trigger decoded[j]]
                        0 <= j < i ==> archive_block_data(url, decoded[j]) is Ok
                },
        },
    decreases decoded.len(),
{
    if decoded.len() > 0 {
        let n = decoded.len() - 1;
        let front = decoded.drop_last();
        a_run_is_taken_block_by_block(url, front);
        match archive_blocks_data(url, front) {
            Ok(blocks) => {
                assert forall|j: int| 0 <= j < n implies archive_block_data(
                    url,
                    #[trigger] decoded[j],
                ) is Ok by {
                    assert(front[j] == decoded[j]);
                    assert(archive_block_data(url, front[j]) == Ok::<_, ErrorView>(blocks[j]));
                }
                assert(decoded[n] == decoded.last());
            },
            Err(error) => {
                let i = choose|i: int|
                    #![trigger front[i]]
                    {
                        &&& 0 <= i < front.len()
                        &&& archive_block_data(url, front[i]) == Err::<ArchiveDataView, _>(error)
                        &&& forall|j: int|
                            #![trigger front[j]]
                            0 <= j < i ==> archive_block_data(url, front[j]) is Ok
                    };
                assert(decoded[i] == front[i]);
                assert forall|j: int| 0 <= j < i implies archive_block_data(
                    url,
                    #[trigger] decoded[j],
                ) is Ok by {
                    assert(front[j] == decoded[j]);
                }
            },
        }
    }
}

/// The identifier of a block is computed from the block itself, but for the
/// block before it, which takes part through the identifier that it bears.
pub proof fn ids_are_computed_from_the_block_itself(parent: BlockView, block: BlockView)
    ensures
        id_input(parent, block).parent_id == parent.id,
        id_input(parent, block).version == block.version,
        id_input(parent, block).index == block.index,
        id_input(parent, block).cumulative_txo_count == block.cumulative_txo_count,
        id_input(parent, block).root_element == block.root_element,
        id_input(parent, block).contents_hash == block.contents_hash,
{
}

/// Nothing of a parent but its identifier takes part in the identifier of the
/// block after it, and nothing of the block but what it names of itself.
pub proof fn only_the_id_of_the_parent_takes_part(
    parent: BlockView,
    other_parent: BlockView,
    block: BlockView,
    id: Seq<u8>,
    parent_id: Seq<u8>,
)
    requires
        parent.id == other_parent.id,
    ensures
        id_input(parent, block) == id_input(other_parent, block),
        id_input(parent, block) == id_input(parent, BlockView { id, parent_id, ..block }),
{
}

/// A run of blocks of one has no link, and each block more has one more.
pub proof fn each_block_but_the_first_has_a_link(n: nat)
    ensures
        link_count(0) == 0,
        link_count(1) == 0,
        n > 0 ==> link_count(n) + 1 == n,
{
}

/// A run is accepted if and only if every block but the first bears the
/// identifier that was computed for it. Else the first that does not is named,
/// by its index and with both identifiers as they are shown.
pub proof fn the_first_broken_link_is_reported(
    url: Seq<char>,
    blocks: Seq<ArchiveDataView>,
    id_texts: Seq<Seq<char>>,
    computed: Seq<ComputedIdView>,
)
    ensures
        match checked_chain(url, blocks, id_texts, computed) {
            Ok(accepted) => {
                &&& accepted == blocks
                &&& forall|i: int|
                    #![trigger blocks[i]]
                    1 <= i < blocks.len() ==> computed[i - 1].id == blocks[i].block.id
            },
            Err(error) => exists|i: int|
                #![trigger blocks[i]]
                {
                    &&& 1 <= i < blocks.len()
                    &&& computed[i - 1].id != blocks[i].block.id
                    &&& error == ErrorView::InvalidBlockReceived(
                        url,
                        "block id mismatch for block #"@ + decimal(blocks[i].block.index as nat)
                            + " ("@ + computed[i - 1].shown + " != "@ + id_texts[i] + ")"@,
                    )
                    &&& forall|j: int|
                        #![trigger blocks[j]]
                        1 <= j < i ==> computed[j - 1].id == blocks[j].block.id
                },
        },
{
    broken_link_is_first(blocks, computed, 1);
    match first_broken_link(blocks, computed, 1) {
        None => {
            assert forall|i: int| 1 <= i < blocks.len() implies computed[i - 1].id == (
            #[trigger] blocks[i]).block.id by {
                assert(link_holds(blocks, computed, i));
            }
        },
        Some(broken) => {
            assert forall|j: int| 1 <= j < broken implies computed[j - 1].id == (
            #[trigger] blocks[j]).block.id by {
                assert(link_holds(blocks, computed, j));
            }
            assert(blocks[broken] == blocks[broken]);
        },
    }
}

} // verus!
