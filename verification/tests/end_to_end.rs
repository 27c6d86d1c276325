use serves3::listing::{ListBatch, ListEntry, StoredObject};
use serves3::resolver::{
    after_fetch, after_listing, first_query, heading, FetchReply, ListReply, ObjectResult,
    ResolveError, Step, StoreQuery,
};

/// A store in memory that answers as an S3-compatible store does, and keeps
/// a record of what it was asked.
struct Store {
    objects: Vec<(String, Vec<u8>)>,
    connected: bool,
    batch_size: usize,
    asked: Vec<StoreQuery>,
}

impl Store {
    fn new() -> Store {
        Store { objects: Vec::new(), connected: true, batch_size: 1000, asked: Vec::new() }
    }

    fn put_object(&mut self, key: &str, content: &[u8]) {
        self.objects.retain(|(k, _)| k != key);
        self.objects.push((key.to_string(), content.to_vec()));
        self.objects.sort();
    }

    fn get_object(&self, key: &str) -> FetchReply {
        if !self.connected {
            return FetchReply::TransportFailure;
        }
        match self.objects.iter().find(|(k, _)| k == key) {
            Some((_, content)) => FetchReply::Response { status: 200, body: content.clone() },
            None => FetchReply::Response { status: 404, body: b"<Error/>".to_vec() },
        }
    }

    fn list(&self, prefix: &str, delimiter: &str) -> ListReply {
        if !self.connected {
            return ListReply::Failure;
        }
        let mut batches: Vec<ListBatch> = Vec::new();
        let mut seen: Vec<String> = Vec::new();
        let mut filled = self.batch_size;
        for (key, content) in &self.objects {
            let Some(rest) = key.strip_prefix(prefix) else { continue };
            let folded = rest.find(delimiter).map(|at| &key[..prefix.len() + at + delimiter.len()]);
            if let Some(folder) = folded {
                if seen.iter().any(|s| s == folder) {
                    continue;
                }
                seen.push(folder.to_string());
            }
            if filled == self.batch_size {
                batches.push(ListBatch {
                    echoed_prefix: Some(prefix.to_string()),
                    common_prefixes: None,
                    contents: Vec::new(),
                });
                filled = 0;
            }
            let batch = batches.last_mut().unwrap();
            match folded {
                Some(folder) => {
                    batch.common_prefixes.get_or_insert_with(Vec::new).push(folder.to_string())
                }
                None => batch.contents.push(StoredObject {
                    key: key.clone(),
                    size: content.len() as u64,
                    last_modified: "2024-05-28T17:19:04.000Z".to_string(),
                }),
            }
            filled += 1;
        }
        if batches.is_empty() {
            batches.push(ListBatch {
                echoed_prefix: Some(prefix.to_string()),
                common_prefixes: None,
                contents: Vec::new(),
            });
        }
        ListReply::Batches(batches)
    }

    /// Resolves a path as a gateway does: it makes each query that the
    /// library asks for and hands the reply back.
    fn resolve(&mut self, path: &str) -> Result<ObjectResult, ResolveError> {
        let mut query = first_query(path);
        loop {
            self.asked.push(query.clone());
            match query {
                StoreQuery::GetObject { key } => match after_fetch(path, self.get_object(&key)) {
                    Step::Ask(next) => query = next,
                    Step::Done(outcome) => return outcome,
                },
                StoreQuery::ListObjects { prefix, delimiter } => {
                    return after_listing(self.list(&prefix, &delimiter));
                }
            }
        }
    }
}

/// The path that the HTTP layer hands over for a URL path: its segments,
/// without a slash at either end.
fn request_path(url_path: &str) -> String {
    url_path.split('/').filter(|segment| !segment.is_empty()).collect::<Vec<_>>().join("/")
}

fn stocked() -> Store {
    let mut store = Store::new();
    store.put_object("file.txt", "I am a file".as_bytes());
    store.put_object("folder/file.txt", "I am a file in a folder".as_bytes());
    store
}

fn folder_of(outcome: Result<ObjectResult, ResolveError>) -> Vec<ListEntry> {
    match outcome {
        Ok(ObjectResult::Folder(entries)) => entries,
        other => panic!("Request failed with {:?}", other),
    }
}

fn get(key: &str) -> StoreQuery {
    StoreQuery::GetObject { key: key.to_string() }
}

fn list(prefix: &str) -> StoreQuery {
    StoreQuery::ListObjects { prefix: prefix.to_string(), delimiter: "/".to_string() }
}

#[test]
fn serves_files() {
    let mut store = stocked();

    let resp = store.resolve(&request_path("/file.txt"));
    assert_eq!(resp, Ok(ObjectResult::File("I am a file".as_bytes().to_vec())));

    let resp = store.resolve(&request_path("/folder/file.txt"));
    assert_eq!(resp, Ok(ObjectResult::File("I am a file in a folder".as_bytes().to_vec())));
}

#[test]
fn serves_top_level_folder() {
    let mut store = stocked();

    let path = request_path("/");
    let entries = folder_of(store.resolve(&path));
    assert_eq!(heading(&path), "/", "title doesn't match");

    assert_eq!(entries.len(), 2);
    assert_eq!(entries[0].name, "folder/");
    assert!(entries[0].is_directory);
    assert_eq!(entries[0].size_human, "[DIR]");
    assert_eq!(entries[0].size_bytes, 0);
    assert_eq!(entries[0].last_modified, "");
    assert_eq!(entries[1].name, "file.txt");
    assert!(!entries[1].is_directory);
    assert_eq!(entries[1].size_bytes, 11);
    assert_eq!(entries[1].size_human, "11.000 B");
    assert_eq!(entries[1].last_modified, "2024-05-28T17:19:04.000Z");
}

#[test]
fn serves_second_level_folder() {
    let mut store = stocked();

    let path = request_path("/folder/");
    let entries = folder_of(store.resolve(&path));
    assert_eq!(heading(&path), "folder/", "title doesn't match");

    assert_eq!(entries.len(), 1);
    assert_eq!(entries[0].name, "file.txt");
    assert!(!entries[0].is_directory);
    assert_eq!(entries[0].size_bytes, 23);
}

#[test]
fn serves_second_level_folder_without_ending_slash() {
    let mut store = stocked();

    let path = request_path("/folder");
    assert_eq!(path, "folder");
    let entries = folder_of(store.resolve(&path));
    assert_eq!(heading(&path), "folder/", "title doesn't match");

    assert_eq!(entries.len(), 1);
    assert_eq!(entries[0].name, "file.txt");
    assert!(!entries[0].is_directory);
}

#[test]
fn root_is_never_fetched() {
    let mut store = stocked();
    store.resolve("").unwrap();
    assert_eq!(store.asked, vec![list("")]);
}

#[test]
fn a_file_costs_one_fetch() {
    let mut store = stocked();
    store.resolve("file.txt").unwrap();
    assert_eq!(store.asked, vec![get("file.txt")]);
}

#[test]
fn a_missing_object_is_listed_next() {
    let mut store = stocked();
    let outcome = store.resolve("missing.txt");
    assert_eq!(store.asked, vec![get("missing.txt"), list("missing.txt/")]);
    assert_eq!(outcome, Ok(ObjectResult::Folder(vec![])));
}

#[test]
fn an_unreachable_store_is_reported_without_a_listing() {
    let mut store = stocked();
    store.connected = false;
    let outcome = store.resolve("x.txt");
    assert_eq!(outcome, Err(ResolveError::StoreUnavailable));
    assert_eq!(store.asked, vec![get("x.txt")]);
}

#[test]
fn an_unreachable_store_has_no_root_either() {
    let mut store = stocked();
    store.connected = false;
    assert_eq!(store.resolve(""), Err(ResolveError::NotFound));
    assert_eq!(store.asked, vec![list("")]);
}

#[test]
fn a_folder_shows_one_level_only() {
    let mut store = stocked();
    store.put_object("folder/deep/down/file.txt", b"far away");
    store.put_object("folder/deep/other.txt", b"also");
    store.put_object("folder/zebra.txt", b"stripes");
    let entries = folder_of(store.resolve("folder"));
    let names: Vec<&str> = entries.iter().map(|e| e.name.as_str()).collect();
    assert_eq!(names, vec!["deep/", "file.txt", "zebra.txt"]);
    let entries = folder_of(store.resolve("folder/deep"));
    let names: Vec<&str> = entries.iter().map(|e| e.name.as_str()).collect();
    assert_eq!(names, vec!["down/", "other.txt"]);
}

#[test]
fn a_name_shared_by_a_file_and_a_folder_is_the_file() {
    let mut store = stocked();
    store.put_object("folder", b"I am a file named folder");
    assert_eq!(
        store.resolve("folder"),
        Ok(ObjectResult::File(b"I am a file named folder".to_vec()))
    );
}

#[test]
fn a_listing_in_several_batches_is_one_folder() {
    let mut store = Store::new();
    store.batch_size = 2;
    for name in ["a.txt", "b/x", "c.txt", "d/y", "e.txt"] {
        store.put_object(name, name.as_bytes());
    }
    let entries = folder_of(store.resolve(""));
    let names: Vec<&str> = entries.iter().map(|e| e.name.as_str()).collect();
    assert_eq!(names, vec!["b/", "a.txt", "d/", "c.txt", "e.txt"]);
}
