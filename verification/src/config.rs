//! How the distribution is configured: where it starts, where it writes to,
//! and where it keeps how far it got.

use crate::block::BlockIndex;
use crate::block_path::{join_path, path_joined};
use crate::text::same_text;
use crate::writer::{BlockWriter, LocalBlockWriter, S3BlockWriter};
use vstd::prelude::*;

verus! {

/// The name of the state file in the home directory of a user.
pub const STATE_FILE_NAME: &'static str = ".mc-ledger-distribution-state";

/// Block to start syncing from.
#[derive(Clone, Copy, Debug, PartialEq, Eq, Structural)]
pub enum StartFrom {
    /// Start from the origin block.
    Zero,
    /// Sync new blocks only, skipping all blocks initially in the ledger.
    Next,
    /// Start from the last block we successfully synced (stored inside a state
    /// file).
    Last,
}

/// The start that a word names.
pub open spec fn start_named(word: Seq<char>) -> Option<StartFrom> {
    if word == "zero"@ {
        Some(StartFrom::Zero)
    } else if word == "next"@ {
        Some(StartFrom::Next)
    } else if word == "last"@ {
        Some(StartFrom::Last)
    } else {
        None
    }
}

impl StartFrom {
    /// Reads the word that names a start.
    pub fn from_str(s: &str) -> (r: Result<StartFrom, String>)
        ensures
            match start_named(s@) {
                Some(start) => r == Ok::<_, String>(start),
                None => r is Err && r->Err_0@ == "Unknown value, valid values are zero/next/last"@,
            },
    {
        if same_text(s, "zero") {
            Ok(StartFrom::Zero)
        } else if same_text(s, "next") {
            Ok(StartFrom::Next)
        } else if same_text(s, "last") {
            Ok(StartFrom::Last)
        } else {
            Err("Unknown value, valid values are zero/next/last".to_owned())
        }
    }
}

impl std::str::FromStr for StartFrom {
    type Err = String;

    fn from_str(s: &str) -> (r: Result<StartFrom, String>)
        ensures
            match start_named(s@) {
                Some(start) => r == Ok::<_, String>(start),
                None => r is Err && r->Err_0@ == "Unknown value, valid values are zero/next/last"@,
            },
    {
        StartFrom::from_str(s)
    }
}

/// What is kept in the state file.
#[derive(Clone, Copy, Debug, PartialEq, Eq, Structural)]
pub struct StateData {
    /// The block to go on with.
    pub next_block: BlockIndex,
}

impl Default for StateData {
    fn default() -> (state: Self)
        ensures
            state.next_block == 0,
    {
        StateData { next_block: 0 }
    }
}

/// Where an archive is.
#[derive(Clone, Debug, PartialEq, Eq)]
pub enum Destination {
    /// In S3, at a path in a region.
    S3 { path: String, region: String },
    /// In a local directory.
    Local { path: String },
}

/// The URI of an archive.
#[derive(Clone, Debug, PartialEq, Eq)]
pub struct Uri {
    /// What the URI names.
    pub destination: Destination,
}

/// How the distribution is configured.
#[derive(Clone, Debug, PartialEq, Eq)]
pub struct Config {
    /// The path of the ledger.
    pub ledger_path: String,
    /// Where the archive is.
    pub destination: Uri,
    /// Block to start from.
    pub start_from: StartFrom,
    /// The state file. In the home directory, where there is none here.
    pub state_file: Option<String>,
}

/// The path of the state file: the one that is configured, or else the usual
/// name in the home directory.
pub open spec fn state_path(configured: Option<String>, home: Option<&str>) -> Option<Seq<char>> {
    match configured {
        Some(path) => Some(path@),
        None => match home {
            Some(home) => Some(path_joined(home@, STATE_FILE_NAME@)),
            None => None,
        },
    }
}

impl Config {
    /// The path of the state file. `None` where none is configured and there
    /// is no home directory.
    pub fn state_file_path(&self, home_dir: Option<&str>) -> (path: Option<String>)
        ensures
            match state_path(self.state_file, home_dir) {
                Some(expected) => path is Some && path->0@ == expected,
                None => path is None,
            },
    {
        match &self.state_file {
            Some(path) => Some(path.clone()),
            None => match home_dir {
                Some(home_dir) => Some(join_path(home_dir, STATE_FILE_NAME)),
                None => None,
            },
        }
    }
}

/// The first block to write. `saved` is what the state file holds, where it is
/// there; `num_blocks` is how many blocks are in the ledger.
pub open spec fn first_block(
    start_from: StartFrom,
    saved: Option<StateData>,
    num_blocks: u64,
) -> BlockIndex {
    match start_from {
        StartFrom::Zero => 0,
        StartFrom::Next => num_blocks,
        StartFrom::Last => match saved {
            Some(state) => state.next_block,
            None => 0,
        },
    }
}

/// Figures out the first block to write.
pub fn first_desired_block(
    start_from: &StartFrom,
    saved: Option<StateData>,
    num_blocks: u64,
) -> (first: BlockIndex)
    ensures
        first == first_block(*start_from, saved, num_blocks),
{
    match start_from {
        StartFrom::Zero => 0,
        StartFrom::Next => num_blocks,
        StartFrom::Last => match saved {
            Some(state) => state.next_block,
            None => 0,
        },
    }
}

/// The writer to an archive.
#[derive(Debug)]
pub enum ArchiveWriter {
    S3(S3BlockWriter),
    Local(LocalBlockWriter),
}

/// Makes the writer to the archive at `destination`.
pub fn create_block_writer(destination: Destination) -> (writer: ArchiveWriter)
    ensures
        match destination {
            Destination::S3 { path, region } => {
                &&& writer is S3
                &&& writer->S3_0.root() == path@
                &&& writer->S3_0.region_spec() == region@
            },
            Destination::Local { path } => writer is Local && writer->Local_0.root() == path@,
        },
{
    match destination {
        Destination::S3 { path, region } => ArchiveWriter::S3(S3BlockWriter::new(path, region)),
        Destination::Local { path } => ArchiveWriter::Local(LocalBlockWriter::new(path)),
    }
}

/// A state that was kept leads back to where the distribution was: to the
/// block that it was to go on with.
pub proof fn a_kept_state_resumes(next_block: BlockIndex, num_blocks: u64)
    ensures
        first_block(StartFrom::Last, Some(StateData { next_block }), num_blocks) == next_block,
{
}

/// Three words name a start, each its own, and no other text does.
pub proof fn every_start_has_its_word(word: Seq<char>)
    ensures
        start_named(word) == Some(StartFrom::Zero) <==> word == seq!['z', 'e', 'r', 'o'],
        start_named(word) == Some(StartFrom::Next) <==> word == seq!['n', 'e', 'x', 't'],
        start_named(word) == Some(StartFrom::Last) <==> word == seq!['l', 'a', 's', 't'],
{
    reveal_strlit("zero");
    reveal_strlit("next");
    reveal_strlit("last");
    assert("zero"@ =~= seq!['z', 'e', 'r', 'o']);
    assert("next"@ =~= seq!['n', 'e', 'x', 't']);
    assert("last"@ =~= seq!['l', 'a', 's', 't']);
    assert("zero"@[0] == 'z' && "next"@[0] == 'n' && "last"@[0] == 'l');
}

/// A start from the origin skips nothing, one from new blocks skips all that
/// are in the ledger, and one from the last skips what the state says was
/// written; the other two do not read the state.
pub proof fn a_start_skips_what_it_says(
    saved: Option<StateData>,
    other: Option<StateData>,
    num_blocks: u64,
    other_num_blocks: u64,
)
    ensures
        first_block(StartFrom::Zero, saved, num_blocks) == 0,
        first_block(StartFrom::Next, saved, num_blocks) == num_blocks,
        first_block(StartFrom::Next, saved, num_blocks) == first_block(
            StartFrom::Next,
            other,
            num_blocks,
        ),
        first_block(StartFrom::Last, saved, num_blocks) == first_block(
            StartFrom::Last,
            saved,
            other_num_blocks,
        ),
        match saved {
            Some(state) => first_block(StartFrom::Last, saved, num_blocks) == state.next_block,
            None => first_block(StartFrom::Last, saved, num_blocks) == first_block(
                StartFrom::Zero,
                saved,
                num_blocks,
            ),
        },
{
}

/// A state file that is configured is used wherever the home directory is; else
/// it lies in the home directory, under its usual name.
pub proof fn a_configured_state_file_comes_first(
    configured: String,
    home: &str,
    elsewhere: Option<&str>,
)
    ensures
        state_path(Some(configured), elsewhere) == Some(configured@),
        state_path(None, Some(home)) == Some(
            path_joined(home@, ".mc-ledger-distribution-state"@),
        ),
        state_path(None, None) is None,
{
}

} // verus!
