//! Blocks of the ledger, as far as archiving and fetching read them.
//!
//! Identifiers, hashes and the root element are byte strings. The contents of
//! a block and its signature are kept in encoded form: they are stored, handed
//! on and compared, never looked into.

use crate::text::same_bytes;
use vstd::prelude::*;

verus! {

/// The position of a block in the ledger. The origin block is at zero.
pub type BlockIndex = u64;

/// The identifier of a block.
pub type BlockID = Vec<u8>;

/// The header of a block.
#[derive(Debug)]
pub struct Block {
    /// The identifier of this block.
    pub id: BlockID,
    /// The version of the block format.
    pub version: u32,
    /// The identifier of the block before this one.
    pub parent_id: BlockID,
    /// The position of this block in the ledger.
    pub index: BlockIndex,
    /// How many outputs the ledger holds up to and with this block.
    pub cumulative_txo_count: u64,
    /// The root of the membership tree, encoded.
    pub root_element: Vec<u8>,
    /// The hash that the contents of this block must have.
    pub contents_hash: Vec<u8>,
}

/// What a `Block` is, as a mathematical value.
#[verifier::ext_equal]
pub struct BlockView {
    pub id: Seq<u8>,
    pub version: u32,
    pub parent_id: Seq<u8>,
    pub index: BlockIndex,
    pub cumulative_txo_count: u64,
    pub root_element: Seq<u8>,
    pub contents_hash: Seq<u8>,
}

impl View for Block {
    type V = BlockView;

    open spec fn view(&self) -> BlockView {
        BlockView {
            id: self.id@,
            version: self.version,
            parent_id: self.parent_id@,
            index: self.index,
            cumulative_txo_count: self.cumulative_txo_count,
            root_element: self.root_element@,
            contents_hash: self.contents_hash@,
        }
    }
}

impl Clone for Block {
    fn clone(&self) -> (copy: Self)
        ensures
            copy@ == self@,
    {
        Block {
            id: copy_bytes(&self.id),
            version: self.version,
            parent_id: copy_bytes(&self.parent_id),
            index: self.index,
            cumulative_txo_count: self.cumulative_txo_count,
            root_element: copy_bytes(&self.root_element),
            contents_hash: copy_bytes(&self.contents_hash),
        }
    }
}

impl PartialEq for Block {
    fn eq(&self, other: &Self) -> (same: bool) {
        same_bytes(&self.id, &other.id) && self.version == other.version && same_bytes(
            &self.parent_id,
            &other.parent_id,
        ) && self.index == other.index && self.cumulative_txo_count == other.cumulative_txo_count
            && same_bytes(&self.root_element, &other.root_element) && same_bytes(
            &self.contents_hash,
            &other.contents_hash,
        )
    }
}

impl vstd::std_specs::cmp::PartialEqSpecImpl for Block {
    open spec fn obeys_eq_spec() -> bool {
        true
    }

    open spec fn eq_spec(&self, other: &Self) -> bool {
        self@ == other@
    }
}

impl Eq for Block {

}

/// The contents of a block, encoded.
#[derive(Debug)]
pub struct BlockContents {
    /// The encoded contents.
    pub data: Vec<u8>,
}

impl View for BlockContents {
    type V = Seq<u8>;

    open spec fn view(&self) -> Seq<u8> {
        self.data@
    }
}

impl Clone for BlockContents {
    fn clone(&self) -> (copy: Self)
        ensures
            copy@ == self@,
    {
        BlockContents { data: copy_bytes(&self.data) }
    }
}

impl PartialEq for BlockContents {
    fn eq(&self, other: &Self) -> (same: bool) {
        same_bytes(&self.data, &other.data)
    }
}

impl vstd::std_specs::cmp::PartialEqSpecImpl for BlockContents {
    open spec fn obeys_eq_spec() -> bool {
        true
    }

    open spec fn eq_spec(&self, other: &Self) -> bool {
        self@ == other@
    }
}

impl Eq for BlockContents {

}

/// The signature of a block, encoded.
#[derive(Debug)]
pub struct BlockSignature {
    /// The encoded signature.
    pub data: Vec<u8>,
}

impl View for BlockSignature {
    type V = Seq<u8>;

    open spec fn view(&self) -> Seq<u8> {
        self.data@
    }
}

impl Clone for BlockSignature {
    fn clone(&self) -> (copy: Self)
        ensures
            copy@ == self@,
    {
        BlockSignature { data: copy_bytes(&self.data) }
    }
}

impl PartialEq for BlockSignature {
    fn eq(&self, other: &Self) -> (same: bool) {
        same_bytes(&self.data, &other.data)
    }
}

impl vstd::std_specs::cmp::PartialEqSpecImpl for BlockSignature {
    open spec fn obeys_eq_spec() -> bool {
        true
    }

    open spec fn eq_spec(&self, other: &Self) -> bool {
        self@ == other@
    }
}

impl Eq for BlockSignature {

}

/// What a signature that may be missing is, as a mathematical value.
pub open spec fn signature_view(signature: Option<BlockSignature>) -> Option<Seq<u8>> {
    match signature {
        Some(signature) => Some(signature@),
        None => None,
    }
}

/// Copies a byte string.
pub fn copy_bytes(bytes: &Vec<u8>) -> (copy: Vec<u8>)
    ensures
        copy@ == bytes@,
{
    let copy = bytes.clone();
    assert(copy@ =~= bytes@);
    copy
}

/// Copies a signature that may be missing.
pub fn copy_signature(signature: &Option<BlockSignature>) -> (copy: Option<BlockSignature>)
    ensures
        signature_view(copy) == signature_view(*signature),
{
    match signature {
        Some(signature) => Some(signature.clone()),
        None => None,
    }
}

} // verus!
