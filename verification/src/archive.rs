//! Archived blocks: what is written, and what is made of what was read back.

use crate::archive_url::ArchiveUrl;
use crate::block::{
    copy_signature, signature_view, Block, BlockContents, BlockSignature, BlockView,
};
use crate::error::{ErrorView, ReqwestTransactionsFetcherError};
use crate::text::same_bytes;
use vstd::prelude::*;
use vstd::string::StringExecFns;

verus! {

/// A block with its contents and its signature, as a mathematical value.
#[verifier::ext_equal]
pub struct ArchiveDataView {
    pub block: BlockView,
    pub block_contents: Seq<u8>,
    pub signature: Option<Seq<u8>>,
}

/// An archived block: one variant per version of the format, of which there
/// is one so far.
#[derive(Debug, PartialEq, Eq)]
pub struct ArchiveBlock {
    /// The block in version 1 of the format.
    pub v1: Option<ArchiveBlockV1>,
}

/// An archived block in version 1 of the format.
#[derive(Debug, PartialEq, Eq)]
pub struct ArchiveBlockV1 {
    pub block: Block,
    pub block_contents: BlockContents,
    pub signature: Option<BlockSignature>,
}

impl View for ArchiveBlockV1 {
    type V = ArchiveDataView;

    open spec fn view(&self) -> ArchiveDataView {
        ArchiveDataView {
            block: self.block@,
            block_contents: self.block_contents@,
            signature: signature_view(self.signature),
        }
    }
}

impl View for ArchiveBlock {
    type V = Option<ArchiveDataView>;

    open spec fn view(&self) -> Option<ArchiveDataView> {
        match self.v1 {
            Some(v1) => Some(v1@),
            None => None,
        }
    }
}

/// Makes the archived form of a block, in version 1 of the format.
pub fn create_archive_block(
    block: &Block,
    block_contents: &BlockContents,
    signature: &Option<BlockSignature>,
) -> (archive_block: ArchiveBlock)
    ensures
        archive_block@ == Some(
            (ArchiveDataView {
                block: block@,
                block_contents: block_contents@,
                signature: signature_view(*signature),
            }),
        ),
        archive_block.v1 is Some,
        archive_block.v1->0.block@ == block@,
        archive_block.v1->0.block_contents@ == block_contents@,
        match *signature {
            Some(signature) => archive_block.v1->0.signature is Some
                && archive_block.v1->0.signature->0@ == signature@,
            None => archive_block.v1->0.signature is None,
        },
{
    ArchiveBlock {
        v1: Some(
            ArchiveBlockV1 {
                block: block.clone(),
                block_contents: block_contents.clone(),
                signature: copy_signature(signature),
            },
        ),
    }
}

/// An archived block that was read back, with what became of each part when
/// it was converted.
#[derive(Debug)]
pub struct DecodedArchiveBlock {
    /// The block in version 1 of the format, where it is there.
    pub v1: Option<DecodedArchiveBlockV1>,
}

/// The parts of an archived block in version 1 of the format. The text of an
/// error says what was wrong.
#[derive(Debug)]
pub struct DecodedArchiveBlockV1 {
    pub block: Result<Block, String>,
    pub block_contents: Result<BlockContents, String>,
    pub signature: Option<Result<BlockSignature, String>>,
    /// Whether the signature is one of the block. Read only where both are
    /// there.
    pub signature_check: Result<(), String>,
    /// The hash of the contents. Read only where they are there.
    pub contents_hash: Vec<u8>,
    /// How the parts are shown. Read only where they are there.
    pub shown: BlockTexts,
}

/// How `{:?}` shows a block, its identifier and its contents, for messages
/// that say why a block is refused.
#[derive(Debug)]
pub struct BlockTexts {
    pub block: String,
    pub id: String,
    pub block_contents: String,
}

/// What a `BlockTexts` is, as a mathematical value.
#[verifier::ext_equal]
pub struct TextsView {
    pub block: Seq<char>,
    pub id: Seq<char>,
    pub block_contents: Seq<char>,
}

impl View for BlockTexts {
    type V = TextsView;

    open spec fn view(&self) -> TextsView {
        TextsView { block: self.block@, id: self.id@, block_contents: self.block_contents@ }
    }
}

/// What a `DecodedArchiveBlockV1` is, as a mathematical value.
#[verifier::ext_equal]
pub struct DecodedView {
    pub block: Result<BlockView, Seq<char>>,
    pub block_contents: Result<Seq<u8>, Seq<char>>,
    pub signature: Option<Result<Seq<u8>, Seq<char>>>,
    pub signature_check: Result<(), Seq<char>>,
    pub contents_hash: Seq<u8>,
    pub shown: TextsView,
}

impl View for DecodedArchiveBlockV1 {
    type V = DecodedView;

    open spec fn view(&self) -> DecodedView {
        DecodedView {
            block: match self.block {
                Ok(block) => Ok(block@),
                Err(error) => Err(error@),
            },
            block_contents: match self.block_contents {
                Ok(contents) => Ok(contents@),
                Err(error) => Err(error@),
            },
            signature: match self.signature {
                Some(Ok(signature)) => Some(Ok(signature@)),
                Some(Err(error)) => Some(Err(error@)),
                None => None,
            },
            signature_check: match self.signature_check {
                Ok(_) => Ok(()),
                Err(error) => Err(error@),
            },
            contents_hash: self.contents_hash@,
            shown: self.shown@,
        }
    }
}

impl View for DecodedArchiveBlock {
    type V = Option<DecodedView>;

    open spec fn view(&self) -> Option<DecodedView> {
        match self.v1 {
            Some(v1) => Some(v1@),
            None => None,
        }
    }
}

/// A block that passed every check, with its contents and its signature.
#[derive(Debug, PartialEq, Eq)]
pub struct ArchiveBlockData {
    pub block: Block,
    pub block_contents: BlockContents,
    pub signature: Option<BlockSignature>,
}

impl View for ArchiveBlockData {
    type V = ArchiveDataView;

    open spec fn view(&self) -> ArchiveDataView {
        ArchiveDataView {
            block: self.block@,
            block_contents: self.block_contents@,
            signature: signature_view(self.signature),
        }
    }
}

impl Clone for ArchiveBlockData {
    fn clone(&self) -> (copy: Self)
        ensures
            copy@ == self@,
    {
        ArchiveBlockData {
            block: self.block.clone(),
            block_contents: self.block_contents.clone(),
            signature: copy_signature(&self.signature),
        }
    }
}

/// A block that passed every check, or the error, as a mathematical value.
pub open spec fn data_result(
    r: Result<ArchiveBlockData, ReqwestTransactionsFetcherError>,
) -> Result<ArchiveDataView, ErrorView> {
    match r {
        Ok(data) => Ok(data@),
        Err(error) => Err(error@),
    }
}

/// Why a block whose contents have another hash is refused.
pub open spec fn contents_hash_mismatch(shown: TextsView) -> Seq<char> {
    "Invalid block contents hash. Block: "@ + shown.block + ", BlockContents: "@
        + shown.block_contents
}

/// Why an archived block is refused: the first thing that is wrong with it.
/// `None` where nothing is.
pub open spec fn refusal(decoded: Option<DecodedView>) -> Option<Seq<char>> {
    match decoded {
        None => Some("v1 block not present"@),
        Some(v1) => if v1.block is Err {
            Some("Block conversion failed: "@ + v1.block->Err_0)
        } else if v1.block_contents is Err {
            Some("Block contents conversion failed: "@ + v1.block_contents->Err_0)
        } else if v1.signature is Some && v1.signature->0 is Err {
            Some("Invalid block signature: "@ + v1.signature->0->Err_0)
        } else if v1.signature is Some && v1.signature_check is Err {
            Some("Unable to verify block signature: "@ + v1.signature_check->Err_0)
        } else if v1.block->Ok_0.contents_hash != v1.contents_hash {
            Some(contents_hash_mismatch(v1.shown))
        } else {
            None
        },
    }
}

/// What is made of an archived block that was read from `url`.
pub open spec fn archive_block_data(url: Seq<char>, decoded: Option<DecodedView>) -> Result<
    ArchiveDataView,
    ErrorView,
> {
    match refusal(decoded) {
        Some(reason) => Err(ErrorView::InvalidBlockReceived(url, reason)),
        None => Ok(
            ArchiveDataView {
                block: decoded->0.block->Ok_0,
                block_contents: decoded->0.block_contents->Ok_0,
                signature: match decoded->0.signature {
                    Some(signature) => Some(signature->Ok_0),
                    None => None,
                },
            },
        ),
    }
}

fn refused(url: &ArchiveUrl, reason: &str, detail: &str) -> (error: ReqwestTransactionsFetcherError)
    ensures
        error@ == ErrorView::InvalidBlockReceived(url@.text, reason@ + detail@),
{
    let mut text = reason.to_owned();
    text.append(detail);
    ReqwestTransactionsFetcherError::InvalidBlockReceived(url.text.clone(), text)
}

impl ArchiveBlockData {
    /// Checks an archived block that was read from a URL: all of its parts
    /// must be there and converted, a signature must be one of the block, and
    /// the contents must have the hash that the block names.
    pub fn try_from(src: (&ArchiveUrl, &DecodedArchiveBlock)) -> (r: Result<
        ArchiveBlockData,
        ReqwestTransactionsFetcherError,
    >)
        ensures
            data_result(r) == archive_block_data(src.0@.text, src.1@),
            r matches Ok(data) ==> {
                &&& src.1.v1 is Some
                &&& src.1.v1->0.block is Ok
                &&& src.1.v1->0.block_contents is Ok
                &&& data.block@ == src.1.v1->0.block->Ok_0@
                &&& data.block_contents@ == src.1.v1->0.block_contents->Ok_0@
                &&& data.block.contents_hash@ == src.1.v1->0.contents_hash@
                &&& match src.1.v1->0.signature {
                    Some(signature) => {
                        &&& signature is Ok
                        &&& src.1.v1->0.signature_check is Ok
                        &&& data.signature is Some
                        &&& data.signature->0@ == signature->Ok_0@
                    },
                    None => data.signature is None,
                }
            },
            r matches Err(error) ==> error@ is InvalidBlockReceived
                && error@->InvalidBlockReceived_0 == src.0@.text,
    {
        let (url, archive_block) = src;
        let v1 = match &archive_block.v1 {
            Some(v1) => v1,
            None => {
                let error = ReqwestTransactionsFetcherError::InvalidBlockReceived(
                    url.text.clone(),
                    "v1 block not present".to_owned(),
                );
                return Err(error);
            },
        };
        let block = match &v1.block {
            Ok(block) => block,
            Err(error) => {
                return Err(refused(url, "Block conversion failed: ", error.as_str()));
            },
        };
        let block_contents = match &v1.block_contents {
            Ok(block_contents) => block_contents,
            Err(error) => {
                return Err(refused(url, "Block contents conversion failed: ", error.as_str()));
            },
        };
        let signature = match &v1.signature {
            Some(Ok(signature)) => Some(signature.clone()),
            Some(Err(error)) => {
                return Err(refused(url, "Invalid block signature: ", error.as_str()));
            },
            None => None,
        };
        if signature.is_some() {
            if let Err(error) = &v1.signature_check {
                return Err(refused(url, "Unable to verify block signature: ", error.as_str()));
            }
        }
        if !same_bytes(&block.contents_hash, &v1.contents_hash) {
            let mut reason = "Invalid block contents hash. Block: ".to_owned();
            reason.append(v1.shown.block.as_str());
            reason.append(", BlockContents: ");
            reason.append(v1.shown.block_contents.as_str());
            return Err(
                ReqwestTransactionsFetcherError::InvalidBlockReceived(url.text.clone(), reason),
            );
        }
        Ok(
            ArchiveBlockData {
                block: block.clone(),
                block_contents: block_contents.clone(),
                signature,
            },
        )
    }
}

/// What an archived block is read back as, where each part converts to what
/// was written: `contents_hash` is the hash of its contents, and
/// `signature_check` says whether its signature is one of the block.
pub open spec fn read_back(
    archived: ArchiveDataView,
    contents_hash: Seq<u8>,
    signature_check: Result<(), Seq<char>>,
    shown: TextsView,
) -> DecodedView {
    DecodedView {
        block: Ok(archived.block),
        block_contents: Ok(archived.block_contents),
        signature: match archived.signature {
            Some(signature) => Some(Ok(signature)),
            None => None,
        },
        signature_check,
        contents_hash,
        shown,
    }
}

/// Whether an archived block is one that a reader accepts: its contents have
/// the hash that the block names, and its signature, where it has one, is one
/// of the block.
pub open spec fn is_sound(
    archived: ArchiveDataView,
    contents_hash: Seq<u8>,
    signature_check: Result<(), Seq<char>>,
) -> bool {
    &&& archived.block.contents_hash == contents_hash
    &&& archived.signature is Some ==> signature_check is Ok
}

/// Reading gives back what was written: an archived block that is read back
/// part by part is accepted, as it was written, if and only if its contents
/// have the hash that the block names and its signature, where it has one, is
/// one of the block.
pub proof fn reading_gives_back_what_was_written(
    url: Seq<char>,
    archived: ArchiveDataView,
    contents_hash: Seq<u8>,
    signature_check: Result<(), Seq<char>>,
    shown: TextsView,
)
    ensures
        ({
            let read = archive_block_data(
                url,
                Some(read_back(archived, contents_hash, signature_check, shown)),
            );
            if is_sound(archived, contents_hash, signature_check) {
                read == Ok::<_, ErrorView>(archived)
            } else {
                read is Err
            }
        }),
{
}

/// What is accepted was checked: an archived block that is accepted has all
/// of its parts, its contents have the hash that it names, and its signature,
/// where it has one, is one of the block.
pub proof fn an_accepted_block_was_checked(url: Seq<char>, decoded: Option<DecodedView>)
    requires
        archive_block_data(url, decoded) is Ok,
    ensures
        ({
            let data = archive_block_data(url, decoded)->Ok_0;
            &&& decoded is Some
            &&& decoded->0.block == Ok::<_, Seq<char>>(data.block)
            &&& decoded->0.block_contents == Ok::<_, Seq<char>>(data.block_contents)
            &&& data.block.contents_hash == decoded->0.contents_hash
            &&& match data.signature {
                Some(signature) => {
                    &&& decoded->0.signature == Some(Ok::<_, Seq<char>>(signature))
                    &&& decoded->0.signature_check is Ok
                },
                None => decoded->0.signature is None,
            }
        }),
{
}

/// A block that is refused is reported with the URL that it came from.
pub proof fn a_refusal_names_the_url(url: Seq<char>, decoded: Option<DecodedView>)
    requires
        archive_block_data(url, decoded) is Err,
    ensures
        archive_block_data(url, decoded)->Err_0 is InvalidBlockReceived,
        archive_block_data(url, decoded)->Err_0->InvalidBlockReceived_0 == url,
{
}

/// A block is accepted whatever else it holds, where all of its parts are there
/// and right: nothing but the parts decides, and they are handed out as they
/// were read.
pub proof fn a_block_with_all_its_parts_is_accepted(
    url: Seq<char>,
    decoded: DecodedView,
    block: BlockView,
    block_contents: Seq<u8>,
    signature: Option<Seq<u8>>,
)
    requires
        decoded.block == Ok::<_, Seq<char>>(block),
        decoded.block_contents == Ok::<_, Seq<char>>(block_contents),
        decoded.contents_hash == block.contents_hash,
        match signature {
            Some(signature) => decoded.signature == Some(Ok::<_, Seq<char>>(signature))
                && decoded.signature_check is Ok,
            None => decoded.signature is None,
        },
    ensures
        archive_block_data(url, Some(decoded)) == Ok::<_, ErrorView>(
            ArchiveDataView { block, block_contents, signature },
        ),
{
}

/// The first thing that is wrong with an archived block is the one that is
/// reported, in the order of its parts: the version, the block, the contents,
/// the signature, whether the signature is one of the block, the hash.
pub proof fn the_first_fault_is_reported(url: Seq<char>, decoded: Option<DecodedView>)
    ensures
        ({
            let read = archive_block_data(url, decoded);
            match decoded {
                None => read == invalid(url, "v1 block not present"@),
                Some(v1) => match v1.block {
                    Err(error) => read == invalid(url, "Block conversion failed: "@ + error),
                    Ok(block) => match v1.block_contents {
                        Err(error) => read == invalid(
                            url,
                            "Block contents conversion failed: "@ + error,
                        ),
                        Ok(_) => match (v1.signature, v1.signature_check) {
                            (Some(Err(error)), _) => read == invalid(
                                url,
                                "Invalid block signature: "@ + error,
                            ),
                            (Some(Ok(_)), Err(error)) => read == invalid(
                                url,
                                "Unable to verify block signature: "@ + error,
                            ),
                            _ => block.contents_hash != v1.contents_hash ==> read == invalid(
                                url,
                                "Invalid block contents hash. Block: "@ + v1.shown.block
                                    + ", BlockContents: "@ + v1.shown.block_contents,
                            ),
                        },
                    },
                },
            }
        }),
{
}

/// A refusal of what was read from `url`, for the given reason.
pub open spec fn invalid(url: Seq<char>, reason: Seq<char>) -> Result<ArchiveDataView, ErrorView> {
    Err(ErrorView::InvalidBlockReceived(url, reason))
}

} // verus!
