use ledger_archive::block::{Block, BlockContents, BlockSignature};
use ledger_archive::config::{
    create_block_writer, first_desired_block, ArchiveWriter, Config, Destination, StartFrom,
    StateData, Uri,
};
use ledger_archive::distribution::{
    run_block, runs_completed_by, Distributor, MergedRange, PollStep, RunCollector, RunLookup,
    SignatureLookup, MERGE_BUCKET_SIZES,
};
use ledger_archive::writer::{check_run, BlockWriter};

fn block(index: u64) -> Block {
    Block {
        id: vec![],
        version: 1,
        parent_id: vec![],
        index,
        cumulative_txo_count: 0,
        root_element: vec![],
        contents_hash: vec![],
    }
}

fn contents() -> BlockContents {
    BlockContents { data: vec![1] }
}

fn signature() -> BlockSignature {
    BlockSignature { data: vec![2] }
}

fn range(first: u64, last: u64, signed: u64) -> MergedRange {
    MergedRange {
        first,
        last,
        signed,
    }
}

#[test]
fn starts_are_named() {
    assert_eq!(StartFrom::from_str("zero"), Ok(StartFrom::Zero));
    assert_eq!(StartFrom::from_str("next"), Ok(StartFrom::Next));
    assert_eq!(StartFrom::from_str("last"), Ok(StartFrom::Last));
    let error = "Unknown value, valid values are zero/next/last".to_string();
    assert_eq!(StartFrom::from_str("Zero"), Err(error.clone()));
    assert_eq!(StartFrom::from_str(""), Err(error.clone()));
    assert_eq!("last".parse::<StartFrom>(), Ok(StartFrom::Last));
    assert_eq!("first".parse::<StartFrom>(), Err(error));
}

#[test]
fn starts_lead_to_a_block() {
    let saved = Some(StateData { next_block: 77 });
    assert_eq!(first_desired_block(&StartFrom::Zero, saved, 100), 0);
    // New blocks only: all that are in the ledger are skipped.
    assert_eq!(first_desired_block(&StartFrom::Next, saved, 100), 100);
    // Where the state file says.
    assert_eq!(first_desired_block(&StartFrom::Last, saved, 100), 77);
    assert_eq!(first_desired_block(&StartFrom::Last, None, 100), 0);
    assert_eq!(StateData::default().next_block, 0);
}

#[test]
fn state_file_is_configured_or_at_home() {
    let mut config = Config {
        ledger_path: "/ledger".to_string(),
        destination: Uri {
            destination: Destination::Local {
                path: "/archive".to_string(),
            },
        },
        start_from: StartFrom::Zero,
        state_file: Some("/state".to_string()),
    };
    assert_eq!(
        config.state_file_path(Some("/home/u")),
        Some("/state".to_string())
    );
    assert_eq!(config.state_file_path(None), Some("/state".to_string()));
    config.state_file = None;
    assert_eq!(
        config.state_file_path(Some("/home/u")),
        Some("/home/u/.mc-ledger-distribution-state".to_string())
    );
    assert_eq!(config.state_file_path(None), None);
}

#[test]
fn writers_go_to_the_destination() {
    match create_block_writer(Destination::S3 {
        path: "p".to_string(),
        region: "r".to_string(),
    }) {
        ArchiveWriter::S3(writer) => assert_eq!(writer.region(), "r"),
        other => panic!("{:?}", other),
    }
    match create_block_writer(Destination::Local {
        path: "/p".to_string(),
    }) {
        ArchiveWriter::Local(writer) => {
            let path = ledger_archive::block_path::BlockPath::new(vec![
                "00".to_string(),
                "0.pb".to_string(),
            ]);
            let write = writer.write_single_block(&path.unwrap(), &block(0), &contents(), &None);
            assert_eq!(write.path, "/p/00/0.pb");
        }
        other => panic!("{:?}", other),
    }
}

#[test]
fn runs_end_with_the_block_that_completes_them() {
    assert_eq!(MERGE_BUCKET_SIZES, [10000]);
    assert_eq!(
        runs_completed_by(&[100, 1000, 7], 2999, 1),
        vec![range(2900, 2999, 1), range(2000, 2999, 1)]
    );
    assert_eq!(runs_completed_by(&[100], 98, 0), vec![]);
    assert_eq!(runs_completed_by(&[100], 100, 0), vec![]);
    assert_eq!(runs_completed_by(&[1], 0, 0), vec![range(0, 0, 0)]);
    assert_eq!(runs_completed_by(&[], 99, 0), vec![]);
}

#[test]
fn every_block_lies_in_one_run() {
    let mut covered = vec![0; 60];
    for i in 0..60 {
        for run in runs_completed_by(&[6], i, i) {
            for j in run.first..=run.last {
                covered[j as usize] += 1;
            }
        }
    }
    assert_eq!(covered, vec![1; 60]);
}

#[test]
fn polling_waits_for_the_block_and_its_contents() {
    let d = Distributor::new(9999);
    assert_eq!(d.next_block(), 9999);
    assert!(matches!(d.polled(false, None), PollStep::Wait));
    assert!(matches!(d.polled(true, None), PollStep::Wait));
    assert!(matches!(d.polled(false, Some(&block(9999))), PollStep::Wait));
    match d.polled(true, Some(&block(9999))) {
        PollStep::Write(runs) => assert_eq!(runs, vec![range(0, 9999, 9999)]),
        other => panic!("{:?}", other),
    }
    match d.polled(true, Some(&block(9998))) {
        PollStep::Write(runs) => assert_eq!(runs, vec![]),
        other => panic!("{:?}", other),
    }
}

#[test]
fn kept_state_resumes() {
    let mut d = Distributor::new(41);
    let state = d.advance();
    assert_eq!(state, StateData { next_block: 42 });
    let first = first_desired_block(&StartFrom::Last, Some(state), 1000);
    assert_eq!(Distributor::new(first), d);
}

#[test]
fn blocks_of_a_run_are_collected_in_order() {
    let mut collector = RunCollector::new(range(5, 7, 8));
    for i in 5..8 {
        assert_eq!(
            collector.next_lookup(),
            Some(RunLookup {
                block: i,
                signature: 8
            })
        );
        let r = collector.add(
            Ok(block(i)),
            Ok(contents()),
            SignatureLookup::Found(signature()),
        );
        assert_eq!(r, Ok(()));
    }
    assert_eq!(collector.next_lookup(), None);
    let blocks = collector.blocks();
    assert!(check_run(&blocks));
    assert_eq!(blocks[2].0.index, 7);
    assert_eq!(blocks[2].2, Some(signature()));
    assert_eq!(RunCollector::new(range(7, 5, 0)).next_lookup(), None);
}

#[test]
fn collecting_stops_at_what_is_missing() {
    let mut collector = RunCollector::new(range(5, 7, 8));
    let r = collector.add(
        Err("gone".to_string()),
        Ok(contents()),
        SignatureLookup::NotFound,
    );
    assert_eq!(r, Err("failed getting block #5: gone".to_string()));
    assert_eq!(collector.next_lookup().unwrap().block, 5);
}

#[test]
fn blocks_of_a_run_must_be_there() {
    let lost = || "gone".to_string();
    assert_eq!(
        run_block(12, Ok(block(12)), Ok(contents()), SignatureLookup::NotFound),
        Ok((block(12), contents(), None))
    );
    assert_eq!(
        run_block(12, Err(lost()), Err(lost()), SignatureLookup::NotFound),
        Err("failed getting block #12: gone".to_string())
    );
    assert_eq!(
        run_block(12, Ok(block(12)), Err(lost()), SignatureLookup::Failed(lost())),
        Err("failed getting block contents #12: gone".to_string())
    );
    assert_eq!(
        run_block(12, Ok(block(12)), Ok(contents()), SignatureLookup::Failed(lost())),
        Err("Failed getting signature for block #12: gone".to_string())
    );
}
