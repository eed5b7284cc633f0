use ledger_archive::archive_url::ArchiveUrl;
use ledger_archive::error::ReqwestTransactionsFetcherError;
use ledger_archive::transfer::{
    fetch_source, file_bytes, http_bytes, parsed_object, BodyError, FetchSource, HttpResponse,
};

type E = ReqwestTransactionsFetcherError;

fn http_url() -> ArchiveUrl {
    ArchiveUrl {
        text: "http://h/x".to_string(),
        scheme: "http".to_string(),
        host_and_path: "h/x".to_string(),
    }
}

fn file_url() -> ArchiveUrl {
    ArchiveUrl {
        text: "file:///srv/x?y".to_string(),
        scheme: "file".to_string(),
        host_and_path: "/srv/x".to_string(),
    }
}

#[test]
fn files_are_read_and_all_else_is_asked_for() {
    assert_eq!(
        fetch_source(&http_url()),
        FetchSource::Http("http://h/x".to_string())
    );
    assert_eq!(
        fetch_source(&file_url()),
        FetchSource::File("/srv/x".to_string())
    );
}

#[test]
fn file_errors_name_the_path() {
    assert_eq!(file_bytes(&file_url(), Ok(vec![1, 2])), Ok(vec![1, 2]));
    assert_eq!(
        file_bytes(&file_url(), Err("gone".to_string())),
        Err(E::IO("/srv/x".to_string(), "gone".to_string()))
    );
}

#[test]
fn answers_over_http() {
    let answer = |status, body| Ok(HttpResponse { status, body });
    assert_eq!(
        http_bytes(&http_url(), answer(200, Ok(vec![3]))),
        Ok(vec![3])
    );
    assert_eq!(
        http_bytes(&http_url(), answer(500, Ok(vec![4]))),
        Ok(vec![4])
    );
    assert_eq!(
        http_bytes(&http_url(), answer(404, Ok(vec![5]))),
        Err(E::BlockNotFound("http://h/x".to_string()))
    );
    assert_eq!(
        http_bytes(&http_url(), Err("refused".to_string())),
        Err(E::ReqwestError(
            "http://h/x".to_string(),
            "refused".to_string()
        ))
    );
    let broken = BodyError {
        url: Some("http://other/".to_string()),
        error: "cut".to_string(),
    };
    assert_eq!(
        http_bytes(&http_url(), answer(200, Err(broken))),
        Err(E::ReqwestError(
            "http://other/".to_string(),
            "cut".to_string()
        ))
    );
    let broken = BodyError {
        url: None,
        error: "cut".to_string(),
    };
    assert_eq!(
        http_bytes(&http_url(), answer(200, Err(broken))),
        Err(E::ReqwestError("".to_string(), "cut".to_string()))
    );
}

#[test]
fn bytes_that_do_not_parse_are_refused() {
    assert_eq!(parsed_object(&http_url(), Ok(7)), Ok(7));
    assert_eq!(
        parsed_object::<u8>(&http_url(), Err("wire".to_string())),
        Err(E::InvalidBlockReceived(
            "http://h/x".to_string(),
            "protobuf parse failed: wire".to_string()
        ))
    );
}
