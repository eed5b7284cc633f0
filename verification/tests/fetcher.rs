use ledger_archive::archive::{
    ArchiveBlockData, BlockTexts, DecodedArchiveBlock, DecodedArchiveBlockV1,
};
use ledger_archive::archive_url::ArchiveUrl;
use ledger_archive::block::{Block, BlockContents};
use ledger_archive::block_path::BlockPath;
use ledger_archive::chain::ComputedId;
use ledger_archive::error::ReqwestTransactionsFetcherError;
use ledger_archive::fetcher::ReqwestTransactionsFetcher;
use ledger_archive::sources::{add_final_slash, url_or_error};
use ledger_archive::steps::{
    block_fetch_step, bucket_size, merged_fetch_step, BlockPaths, FetchStep,
};

type E = ReqwestTransactionsFetcherError;
type Fetcher = ReqwestTransactionsFetcher<u32>;

fn fetcher(urls: &[&str]) -> Fetcher {
    Fetcher::new(urls.iter().map(|url| url.to_string()).collect()).unwrap()
}

fn block(index: u64) -> Block {
    Block {
        id: index.to_le_bytes().to_vec(),
        version: 1,
        parent_id: vec![],
        index,
        cumulative_txo_count: 0,
        root_element: vec![],
        contents_hash: vec![5],
    }
}

fn data(index: u64) -> ArchiveBlockData {
    ArchiveBlockData {
        block: block(index),
        block_contents: contents(index),
        signature: None,
    }
}

fn contents(index: u64) -> BlockContents {
    BlockContents {
        data: index.to_be_bytes().to_vec(),
    }
}

fn path(names: &[&str]) -> BlockPath {
    BlockPath::new(names.iter().map(|name| name.to_string()).collect()).unwrap()
}

fn paths() -> BlockPaths {
    BlockPaths {
        block: path(&["00", "b.pb"]),
        merged_10000: path(&["merged-10000", "00", "b.pb"]),
        merged_1000: path(&["merged-1000", "00", "b.pb"]),
        merged_100: path(&["merged-100", "00", "b.pb"]),
    }
}

fn plain_url(text: &str) -> ArchiveUrl {
    ArchiveUrl {
        text: text.to_string(),
        scheme: "http".to_string(),
        host_and_path: "h/".to_string(),
    }
}

fn merged(step: FetchStep) -> (ArchiveUrl, usize, String) {
    match step {
        FetchStep::FetchMergedBlocks {
            source,
            bucket,
            url,
        } => (source, bucket, url.text),
        other => panic!("{:?}", other),
    }
}

fn single(step: FetchStep) -> ArchiveUrl {
    match step {
        FetchStep::FetchBlock { url } => url,
        other => panic!("{:?}", other),
    }
}

fn done(step: FetchStep) -> Result<BlockContents, E> {
    match step {
        FetchStep::Done(result) => result,
        other => panic!("{:?}", other),
    }
}

fn failed() -> E {
    E::BlockNotFound("somewhere".to_string())
}

#[test]
fn sources_end_with_a_slash() {
    assert_eq!(add_final_slash("http://h/a".to_string()), "http://h/a/");
    assert_eq!(add_final_slash("http://h/a/".to_string()), "http://h/a/");
    assert_eq!(add_final_slash("".to_string()), "/");
    let f = fetcher(&["HTTP://Host/a", "file:///srv/x/?q"]);
    assert_eq!(f.source_urls[0].text, "http://host/a/");
    assert_eq!(f.source_urls[0].scheme, "http");
    assert_eq!(f.source_urls[0].host_and_path, "host/a/");
    assert_eq!(f.source_urls[1].text, "file:///srv/x/?q/");
    assert_eq!(f.source_urls[1].scheme, "file");
    assert_eq!(f.source_urls[1].host_and_path, "/srv/x/");
    assert_eq!(f.source_urls().len(), 2);
}

#[test]
fn client_is_carried() {
    let f = Fetcher::new_with_client(vec![], 17).unwrap();
    assert_eq!(*f.client(), 17);
    assert_eq!(*fetcher(&[]).client(), 0);
    assert_eq!((f.hits(), f.misses()), (0, 0));
}

#[test]
fn first_text_that_is_no_url_is_reported() {
    let r = Fetcher::new(vec![
        "http://h".to_string(),
        "nonsense".to_string(),
        "http://h:port".to_string(),
    ]);
    match r {
        Err(error) => assert_eq!(
            error,
            E::UrlParse(
                "nonsense/".to_string(),
                url::ParseError::RelativeUrlWithoutBase.to_string()
            )
        ),
        Ok(_) => panic!("accepted"),
    }
    assert_eq!(
        url_or_error("x", Err("bad".to_string())),
        Err(E::UrlParse("x".to_string(), "bad".to_string()))
    );
    assert_eq!(url_or_error("x", Ok(plain_url("y"))), Ok(plain_url("y")));
}

#[test]
fn steps_name_what_did_not_join() {
    let source = plain_url("http://h/");
    let step = merged_fetch_step(&source, 1, "f", Ok(plain_url("http://h/f")));
    let (from, bucket, url) = merged(step);
    assert_eq!((from, bucket, url.as_str()), (source, 1, "http://h/f"));
    let error = E::UrlParse("f".to_string(), "bad".to_string());
    let step = merged_fetch_step(&plain_url("s"), 1, "f", Err("bad".to_string()));
    assert_eq!(done(step), Err(error));
    assert_eq!(
        single(block_fetch_step("f", Ok(plain_url("http://h/f")))).text,
        "http://h/f"
    );
    let error = E::UrlParse("f".to_string(), "bad".to_string());
    assert_eq!(
        done(block_fetch_step("f", Err("bad".to_string()))),
        Err(error)
    );
}

#[test]
fn sizes_of_runs() {
    assert_eq!(
        [bucket_size(0), bucket_size(1), bucket_size(2)],
        [10000, 1000, 100]
    );
}

#[test]
fn block_amid_runs_is_fetched_alone() {
    let mut f = fetcher(&["http://h/a"]);
    let url = single(f.get_block_contents(&block(101), &paths()));
    assert_eq!(url.text, "http://h/a/00/b.pb");
    assert_eq!(
        f.block_received(&block(101), &url, Ok(data(101))),
        Ok(contents(101))
    );
    assert_eq!((f.hits(), f.misses()), (0, 1));
}

#[test]
fn runs_are_tried_from_the_largest() {
    let mut f = fetcher(&["http://h"]);
    let b = block(20000);
    let (source, bucket, url) = merged(f.get_block_contents(&b, &paths()));
    assert_eq!(bucket, 0);
    assert_eq!(url, "http://h/merged-10000/00/b.pb");
    let step = f.merged_blocks_received(&b, &paths(), &source, bucket, Err(failed()));
    let (source, bucket, url) = merged(step);
    assert_eq!(bucket, 1);
    assert_eq!(url, "http://h/merged-1000/00/b.pb");
    let step = f.merged_blocks_received(&b, &paths(), &source, bucket, Err(failed()));
    let (source, bucket, url) = merged(step);
    assert_eq!(bucket, 2);
    assert_eq!(url, "http://h/merged-100/00/b.pb");
    let step = f.merged_blocks_received(&b, &paths(), &source, bucket, Err(failed()));
    assert_eq!(single(step).text, "http://h/00/b.pb");
}

#[test]
fn only_sizes_that_divide_the_index_are_tried() {
    let mut f = fetcher(&["http://h"]);
    assert_eq!(merged(f.get_block_contents(&block(0), &paths())).1, 0);
    assert_eq!(merged(f.get_block_contents(&block(3000), &paths())).1, 1);
    assert_eq!(merged(f.get_block_contents(&block(300), &paths())).1, 2);
    single(f.get_block_contents(&block(350), &paths()));
}

#[test]
fn run_that_was_fetched_answers_later_requests() {
    let mut f = fetcher(&["http://h"]);
    let b = block(100);
    let (source, bucket, _) = merged(f.get_block_contents(&b, &paths()));
    assert_eq!(bucket, 2);
    let run: Vec<ArchiveBlockData> = (100..200).map(data).collect();
    let step = f.merged_blocks_received(&b, &paths(), &source, bucket, Ok(run));
    // The block itself is still fetched.
    let url = single(step);
    assert_eq!(f.block_received(&b, &url, Ok(data(100))), Ok(contents(100)));
    for i in 100..200 {
        assert_eq!(
            done(f.get_block_contents(&block(i), &paths())),
            Ok(contents(i))
        );
    }
    assert_eq!((f.hits(), f.misses()), (100, 1));
    single(f.get_block_contents(&block(150), &paths()));
}

#[test]
fn kept_block_with_another_header_does_not_answer() {
    let mut f = fetcher(&["http://h"]);
    let source = plain_url("http://h/");
    f.merged_blocks_received(&block(7), &paths(), &source, 2, Ok(vec![data(7)]));
    let mut other = block(7);
    other.version = 2;
    assert!(f.keeps(&block(7)));
    assert!(!f.keeps(&other));
    assert!(!f.keeps(&block(8)));
    single(f.get_block_contents(&other, &paths()));
    // It was taken out all the same.
    single(f.get_block_contents(&block(7), &paths()));
    assert_eq!(f.hits(), 0);
}

#[test]
fn another_block_than_requested_is_refused() {
    let mut f = fetcher(&["http://h"]);
    let url = plain_url("http://h/00/b.pb");
    assert_eq!(
        f.block_received(&block(1), &url, Ok(data(2))),
        Err(E::InvalidBlockReceived(
            "http://h/00/b.pb".to_string(),
            "block data mismatch".to_string()
        ))
    );
    assert_eq!(
        f.block_received(&block(1), &url, Err(failed())),
        Err(failed())
    );
    assert_eq!(f.misses(), 0);
}

#[test]
fn sources_take_turns() {
    let mut f = fetcher(&["http://a", "http://b", "http://c"]);
    let mut hosts = Vec::new();
    for i in 1..6u64 {
        hosts.push(single(f.get_block_contents(&block(i), &paths())).text);
    }
    assert_eq!(
        hosts,
        vec![
            "http://a/00/b.pb",
            "http://b/00/b.pb",
            "http://c/00/b.pb",
            "http://a/00/b.pb",
            "http://b/00/b.pb",
        ]
    );
}

#[test]
fn source_that_takes_no_paths_is_reported() {
    let mut f = fetcher(&["mailto:someone"]);
    assert_eq!(
        done(f.get_block_contents(&block(1), &paths())),
        Err(E::UrlParse(
            "00/b.pb".to_string(),
            url::ParseError::RelativeUrlWithCannotBeABaseBase.to_string()
        ))
    );
    assert_eq!(
        done(f.get_block_contents(&block(100), &paths())),
        Err(E::UrlParse(
            "merged-100/00/b.pb".to_string(),
            url::ParseError::RelativeUrlWithCannotBeABaseBase.to_string()
        ))
    );
    assert_eq!(
        f.origin_block_url(&paths().block),
        Ok(Err(
            url::ParseError::RelativeUrlWithCannotBeABaseBase.to_string()
        ))
    );
}

fn decoded(index: u64) -> DecodedArchiveBlock {
    DecodedArchiveBlock {
        v1: Some(DecodedArchiveBlockV1 {
            block: Ok(block(index)),
            block_contents: Ok(contents(index)),
            signature: None,
            signature_check: Ok(()),
            contents_hash: vec![5],
            shown: BlockTexts {
                block: "b".to_string(),
                id: "i".to_string(),
                block_contents: "c".to_string(),
            },
        }),
    }
}

#[test]
fn blocks_from_a_url_are_checked() {
    let f = fetcher(&[]);
    let url = plain_url("http://h/x");
    assert_eq!(f.block_from_url(&url, Ok(decoded(3))), Ok(data(3)));
    assert_eq!(f.block_from_url(&url, Err(failed())), Err(failed()));
    let unlinked = f.blocks_from_url(&url, Ok(vec![decoded(3), decoded(4)])).unwrap();
    assert_eq!(
        unlinked.check(&vec![ComputedId {
            id: block(4).id,
            shown: "i".to_string(),
        }]),
        Ok(vec![data(3), data(4)])
    );
    match f.blocks_from_url(&url, Err(failed())) {
        Err(error) => assert_eq!(error, failed()),
        Ok(_) => panic!("accepted"),
    }
}

#[test]
fn origin_block_comes_from_the_first_source() {
    let f = fetcher(&["http://a/x", "http://b"]);
    let url = f.origin_block_url(&paths().block).unwrap().unwrap();
    assert_eq!(url.text, "http://a/x/00/b.pb");
    assert_eq!(
        f.get_origin_block_and_transactions(&url, Ok(decoded(0))),
        Ok((block(0), contents(0)))
    );
    assert_eq!(
        f.get_origin_block_and_transactions(&url, Err(failed())),
        Err(failed())
    );
    assert_eq!(
        fetcher(&[]).origin_block_url(&paths().block),
        Err(E::NoUrlsConfigured)
    );
}

/// The sum of the bytes, as a stand-in for a hash.
fn sum(contents: &BlockContents) -> Vec<u8> {
    vec![contents.data.iter().fold(0u8, |a, b| a.wrapping_add(*b))]
}

fn summed(index: u64, names: &[u8]) -> DecodedArchiveBlock {
    let mut archived = decoded(index);
    let v1 = archived.v1.as_mut().unwrap();
    v1.block.as_mut().unwrap().contents_hash = names.to_vec();
    v1.contents_hash = sum(&contents(index));
    archived
}

#[test]
fn answers_have_the_hash_that_the_block_names() {
    let mut f = fetcher(&["http://h"]);
    let url = plain_url("http://h/x");
    let source = plain_url("http://h/");
    let mut asked = block(7);
    asked.contents_hash = vec![7];
    // A block that names another hash is not taken, alone or in a run.
    let bad = f.block_from_url(&url, Ok(summed(7, &[8])));
    assert!(bad.is_err());
    assert!(f.block_received(&asked, &url, bad).is_err());
    match f.blocks_from_url(&url, Ok(vec![summed(7, &[7]), summed(8, &[7])])) {
        Err(error) => {
            f.merged_blocks_received(&asked, &paths(), &source, 2, Err(error));
        }
        Ok(_) => panic!("accepted"),
    }
    assert!(!f.keeps(&asked));
    let run = f.blocks_from_url(&url, Ok(vec![summed(7, &[7])])).unwrap();
    let received = run.check(&vec![]);
    f.merged_blocks_received(&asked, &paths(), &source, 2, received);
    let answer = done(f.get_block_contents(&asked, &paths())).unwrap();
    assert_eq!(sum(&answer), asked.contents_hash);
}

#[test]
fn failed_request_is_answered_by_the_run_that_it_fetched() {
    let mut f = fetcher(&["http://h"]);
    let b = block(100);
    let (source, bucket, _) = merged(f.get_block_contents(&b, &paths()));
    let run: Vec<ArchiveBlockData> = (100..200).map(data).collect();
    let url = single(f.merged_blocks_received(&b, &paths(), &source, bucket, Ok(run)));
    assert_eq!(f.block_received(&b, &url, Err(failed())), Err(failed()));
    // Other blocks first, in another order than that of the run.
    for i in [199, 150, 101, 5000001] {
        f.get_block_contents(&block(i), &paths());
    }
    assert_eq!(done(f.get_block_contents(&b, &paths())), Ok(contents(100)));
    assert_eq!((f.hits(), f.misses()), (4, 0));
}

#[test]
fn last_block_of_an_id_is_kept() {
    let mut f = fetcher(&["http://h"]);
    let mut again = data(7);
    again.block_contents = contents(70);
    let run = vec![data(7), data(8), again];
    f.merged_blocks_received(&block(7), &paths(), &plain_url("http://h/"), 2, Ok(run));
    assert_eq!(
        done(f.get_block_contents(&block(8), &paths())),
        Ok(contents(8))
    );
    assert_eq!(
        done(f.get_block_contents(&block(7), &paths())),
        Ok(contents(70))
    );
}

#[test]
fn turns_count_what_was_not_kept() {
    let mut f = fetcher(&["http://a", "http://b"]);
    let source = plain_url("http://a/");
    f.merged_blocks_received(&block(7), &paths(), &source, 2, Ok(vec![data(7)]));
    let first = single(f.get_block_contents(&block(1), &paths()));
    assert_eq!(first.text, "http://a/00/b.pb");
    done(f.get_block_contents(&block(7), &paths())).unwrap();
    f.block_received(&block(1), &first, Err(failed())).unwrap_err();
    let second = single(f.get_block_contents(&block(7), &paths()));
    assert_eq!(second.text, "http://b/00/b.pb");
    let third = single(f.get_block_contents(&block(2), &paths()));
    assert_eq!(third.text, "http://a/00/b.pb");
}
