use serves3::listing::{ListBatch, ListEntry, StoredObject};
use serves3::resolver::{
    after_fetch, after_listing, first_query, heading, listing_query, FetchReply, ListReply,
    ObjectResult, ResolveError, Step, StoreQuery,
};

fn get(key: &str) -> StoreQuery {
    StoreQuery::GetObject { key: key.to_string() }
}

fn list(prefix: &str) -> StoreQuery {
    StoreQuery::ListObjects { prefix: prefix.to_string(), delimiter: "/".to_string() }
}

fn response(status: u16, body: &str) -> FetchReply {
    FetchReply::Response { status, body: body.as_bytes().to_vec() }
}

#[test]
fn root_is_listed_at_once() {
    assert_eq!(first_query(""), list(""));
}

#[test]
fn other_paths_are_first_fetched_verbatim() {
    assert_eq!(first_query("file.txt"), get("file.txt"));
    assert_eq!(first_query("folder/file.txt"), get("folder/file.txt"));
    assert_eq!(first_query("folder"), get("folder"));
    assert_eq!(first_query("with space/ünïcode"), get("with space/ünïcode"));
}

#[test]
fn listing_query_appends_the_separator() {
    assert_eq!(listing_query("folder"), list("folder/"));
    assert_eq!(listing_query("a/b"), list("a/b/"));
    assert_eq!(listing_query(""), list(""));
}

#[test]
fn status_200_serves_the_body() {
    assert_eq!(
        after_fetch("file.txt", response(200, "I am a file")),
        Step::Done(Ok(ObjectResult::File("I am a file".as_bytes().to_vec())))
    );
}

#[test]
fn status_204_serves_the_body() {
    assert_eq!(
        after_fetch("empty.bin", response(204, "")),
        Step::Done(Ok(ObjectResult::File(vec![])))
    );
}

#[test]
fn status_404_falls_back_to_the_listing() {
    assert_eq!(after_fetch("folder", response(404, "<Error/>")), Step::Ask(list("folder/")));
    assert_eq!(after_fetch("missing.txt", response(404, "")), Step::Ask(list("missing.txt/")));
}

#[test]
fn other_statuses_report_the_store_unavailable() {
    for status in [0u16, 100, 201, 203, 205, 301, 400, 403, 405, 500, 502, 503, u16::MAX] {
        assert_eq!(
            after_fetch("x.txt", response(status, "whatever")),
            Step::Done(Err(ResolveError::StoreUnavailable))
        );
    }
}

#[test]
fn transport_failure_reports_the_store_unavailable() {
    assert_eq!(
        after_fetch("x.txt", FetchReply::TransportFailure),
        Step::Done(Err(ResolveError::StoreUnavailable))
    );
}

#[test]
fn root_is_never_served_as_a_file() {
    assert_eq!(after_fetch("", response(200, "<ListBucketResult/>")), Step::Ask(list("")));
    assert_eq!(after_fetch("", FetchReply::TransportFailure), Step::Ask(list("")));
}

#[test]
fn failed_listing_is_not_found() {
    assert_eq!(after_listing(ListReply::Failure), Err(ResolveError::NotFound));
}

#[test]
fn listing_becomes_a_folder() {
    let batches = vec![ListBatch {
        echoed_prefix: Some("folder/".to_string()),
        common_prefixes: Some(vec!["folder/sub/".to_string()]),
        contents: vec![StoredObject {
            key: "folder/file.txt".to_string(),
            size: 23,
            last_modified: "2024-06-01T00:00:00.000Z".to_string(),
        }],
    }];
    assert_eq!(
        after_listing(ListReply::Batches(batches)),
        Ok(ObjectResult::Folder(vec![
            ListEntry {
                name: "sub/".to_string(),
                is_directory: true,
                size_bytes: 0,
                size_human: "[DIR]".to_string(),
                last_modified: String::new(),
            },
            ListEntry {
                name: "file.txt".to_string(),
                is_directory: false,
                size_bytes: 23,
                size_human: "23.000 B".to_string(),
                last_modified: "2024-06-01T00:00:00.000Z".to_string(),
            },
        ]))
    );
}

#[test]
fn empty_listing_is_an_empty_folder() {
    assert_eq!(after_listing(ListReply::Batches(vec![])), Ok(ObjectResult::Folder(vec![])));
}

#[test]
fn heading_ends_in_a_separator() {
    assert_eq!(heading(""), "/");
    assert_eq!(heading("folder"), "folder/");
    assert_eq!(heading("a/b"), "a/b/");
}
