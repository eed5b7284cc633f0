# ledger_archive

Archiving the blocks of a MobileCoin ledger, and fetching them back.

The library decides; it reads no file and sends no request. What it decides is
stated in contracts that Verus proves:

- `archive`, `chain`: what an archived block, or a run of merged blocks, holds,
  and which of what is read back is accepted.
- `fetcher`, `steps`, `sources`, `cache`, `requests`: where the contents of a
  block are looked for, in which order, and what is kept for later requests.
- `transfer`, `error`: what the outcome of a transfer means.
- `integrity`: that what is handed out has the hash that its block names.
- `writer`, `block_path`: which file a block or a run of blocks goes into.
- `round_trip`: that a reader gets back what a writer wrote.
- `config`, `distribution`: where the distribution of a ledger starts, and when
  runs of blocks are merged.
- `archive_url`, `block`, `text`: URLs, blocks and texts.

URLs are read and joined by the `url` crate, behind the two functions in
`archive_url` that are trusted and not proved.

`app/` is the program around the library: the command line, the ledger, the
file system, HTTP and S3. It needs the crates `mc-api`, `mc-ledger-db` and
`mc-transaction-core` of the MobileCoin workspace.
