use std::collections::HashMap;

use wash::cache::ArtifactCache;
use wash::effect::{Request, Response};
use wash::error::CommandError;
use wash::reference::Reference;
use wash::transfer::{failure_of, TransferClient, TransferProgress};

const CACHED: &str = "cache/registry.example_2fns_2fcomp_3a1.0.wasm";
const STAGED: &str = "cache/registry.example_2fns_2fcomp_3a1.0.wasm.tmp";

/// A disk and a registry in memory, with a record of what was asked.
struct Host {
    files: HashMap<String, Vec<u8>>,
    registry: HashMap<String, Vec<u8>>,
    asked: Vec<String>,
    remote_answer: Option<Response>,
    failing_disk: bool,
}

impl Host {
    fn new() -> Host {
        Host {
            files: HashMap::new(),
            registry: HashMap::new(),
            asked: Vec::new(),
            remote_answer: None,
            failing_disk: false,
        }
    }

    fn perform(&mut self, request: Request) -> Response {
        match request {
            Request::ReadFile { path } => {
                self.asked.push(format!("read {}", path));
                match self.files.get(&path) {
                    Some(bytes) => Response::Bytes(bytes.clone()),
                    None => Response::Missing,
                }
            }
            Request::CreateDirAll { path } => {
                self.asked.push(format!("mkdir {}", path));
                if self.failing_disk {
                    Response::Failed
                } else {
                    Response::Done
                }
            }
            Request::WriteFile { path, bytes } => {
                self.asked.push(format!("write {}", path));
                self.files.insert(path, bytes);
                Response::Done
            }
            Request::Rename { from, to } => {
                self.asked.push(format!("rename {} {}", from, to));
                match self.files.remove(&from) {
                    Some(bytes) => {
                        self.files.insert(to, bytes);
                        Response::Done
                    }
                    None => Response::Failed,
                }
            }
            Request::Fetch { reference } => {
                self.asked.push(format!("fetch {}", reference.as_str()));
                if let Some(answer) = self.remote_answer.take() {
                    return answer;
                }
                match self.registry.get(reference.as_str()) {
                    Some(bytes) => Response::Bytes(bytes.clone()),
                    None => Response::NotFound,
                }
            }
            Request::Upload { reference, bytes } => {
                self.asked.push(format!("upload {}", reference.as_str()));
                if let Some(answer) = self.remote_answer.take() {
                    return answer;
                }
                self.registry.insert(reference.as_str().to_string(), bytes);
                Response::Done
            }
        }
    }

    fn run(&mut self, mut progress: TransferProgress) -> Result<Vec<u8>, CommandError> {
        loop {
            match progress {
                TransferProgress::Pending(transfer, request) => {
                    let response = self.perform(request);
                    progress = transfer.advance(response);
                }
                TransferProgress::Finished(result) => return result,
            }
        }
    }

    fn remote_calls(&self) -> usize {
        self.asked.iter().filter(|line| line.starts_with("fetch") || line.starts_with("upload")).count()
    }
}

fn client() -> TransferClient {
    TransferClient::new(ArtifactCache::new("cache".to_string()))
}

fn reference() -> Reference {
    Reference::parse("registry.example/ns/comp:1.0").expect("a valid reference")
}

#[test]
fn pull_looks_in_the_cache_first() {
    match client().pull(reference()) {
        TransferProgress::Pending(_, request) => {
            assert_eq!(request, Request::ReadFile { path: CACHED.to_string() });
            assert!(!request.is_remote());
        }
        TransferProgress::Finished(result) => panic!("finished too early: {:?}", result),
    }
}

#[test]
fn pull_on_a_hit_needs_no_registry() {
    let mut host = Host::new();
    host.files.insert(CACHED.to_string(), vec![1, 2, 3]);
    let result = host.run(client().pull(reference()));
    assert_eq!(result, Ok(vec![1, 2, 3]));
    assert_eq!(host.asked, vec![format!("read {}", CACHED)]);
    assert_eq!(host.remote_calls(), 0);
}

#[test]
fn pull_on_a_miss_fetches_once_and_fills_the_cache() {
    let mut host = Host::new();
    host.registry.insert("registry.example/ns/comp:1.0".to_string(), vec![4, 5, 6, 7]);
    let result = host.run(client().pull(reference()));
    assert_eq!(result, Ok(vec![4, 5, 6, 7]));
    assert_eq!(
        host.asked,
        vec![
            format!("read {}", CACHED),
            "fetch registry.example/ns/comp:1.0".to_string(),
            "mkdir cache".to_string(),
            format!("write {}", STAGED),
            format!("rename {} {}", STAGED, CACHED),
        ]
    );
    assert_eq!(host.remote_calls(), 1);
    assert_eq!(host.files.get(CACHED), Some(&vec![4, 5, 6, 7]));
    assert_eq!(host.files.get(STAGED), None);
}

#[test]
fn pull_twice_fetches_once() {
    let mut host = Host::new();
    host.registry.insert("registry.example/ns/comp:1.0".to_string(), vec![4, 5, 6, 7]);
    let first = host.run(client().pull(reference()));
    let calls_after_first = host.remote_calls();
    let second = host.run(client().pull(reference()));
    assert_eq!(first, Ok(vec![4, 5, 6, 7]));
    assert_eq!(second, first);
    assert_eq!(calls_after_first, 1);
    assert_eq!(host.remote_calls(), 1);
}

#[test]
fn pull_of_an_unknown_reference_is_not_found() {
    let mut host = Host::new();
    let result = host.run(client().pull(reference()));
    assert_eq!(result, Err(CommandError::ReferenceNotFound));
    assert!(host.files.is_empty());
}

#[test]
fn pull_tells_remote_failures_apart() {
    let cases = [
        (Response::Unreachable, CommandError::RegistryUnreachable),
        (Response::NotFound, CommandError::ReferenceNotFound),
        (Response::AuthRejected, CommandError::AuthRejected),
        (Response::PayloadRejected, CommandError::RegistryUnreachable),
        (Response::Done, CommandError::RegistryUnreachable),
        (Response::Missing, CommandError::RegistryUnreachable),
        (Response::Failed, CommandError::RegistryUnreachable),
    ];
    for (answer, expected) in cases {
        let mut host = Host::new();
        host.remote_answer = Some(answer);
        let result = host.run(client().pull(reference()));
        assert_eq!(result, Err(expected));
        assert_eq!(host.remote_calls(), 1);
        assert!(host.files.is_empty());
    }
}

#[test]
fn pull_with_an_unreadable_cache_file_fails_without_the_registry() {
    let transfer = match client().pull(reference()) {
        TransferProgress::Pending(transfer, _) => transfer,
        TransferProgress::Finished(result) => panic!("finished too early: {:?}", result),
    };
    match transfer.advance(Response::Failed) {
        TransferProgress::Finished(result) => {
            assert_eq!(result, Err(CommandError::CacheReadFailure))
        }
        TransferProgress::Pending(_, request) => panic!("asked for more: {:?}", request),
    }
}

#[test]
fn pull_that_cannot_store_fails_as_a_cache_write() {
    let mut host = Host::new();
    host.failing_disk = true;
    host.registry.insert("registry.example/ns/comp:1.0".to_string(), vec![1]);
    let result = host.run(client().pull(reference()));
    assert_eq!(result, Err(CommandError::CacheWriteFailure));
    assert_eq!(host.files.get(CACHED), None);
}

#[test]
fn push_uploads_first_and_then_fills_the_cache() {
    let mut host = Host::new();
    let result = host.run(client().push(reference(), vec![7, 7]));
    assert_eq!(result, Ok(vec![7, 7]));
    assert_eq!(
        host.asked,
        vec![
            "upload registry.example/ns/comp:1.0".to_string(),
            "mkdir cache".to_string(),
            format!("write {}", STAGED),
            format!("rename {} {}", STAGED, CACHED),
        ]
    );
    assert_eq!(host.registry.get("registry.example/ns/comp:1.0"), Some(&vec![7, 7]));
    assert_eq!(host.files.get(CACHED), Some(&vec![7, 7]));
}

#[test]
fn push_hands_the_bytes_to_the_registry() {
    match client().push(reference(), vec![1, 2, 3]) {
        TransferProgress::Pending(_, request) => {
            assert!(request.is_remote());
            assert_eq!(request, Request::Upload { reference: reference(), bytes: vec![1, 2, 3] });
        }
        TransferProgress::Finished(result) => panic!("finished too early: {:?}", result),
    }
}

#[test]
fn pull_after_push_is_free() {
    let mut host = Host::new();
    host.run(client().push(reference(), vec![7, 7])).expect("the push goes well");
    let calls_after_push = host.remote_calls();
    let pulled = host.run(client().pull(reference()));
    assert_eq!(pulled, Ok(vec![7, 7]));
    assert_eq!(calls_after_push, 1);
    assert_eq!(host.remote_calls(), 1);
}

#[test]
fn push_twice_goes_well_twice() {
    let mut host = Host::new();
    let first = host.run(client().push(reference(), vec![7, 7]));
    let second = host.run(client().push(reference(), vec![7, 7]));
    assert_eq!(first, Ok(vec![7, 7]));
    assert_eq!(second, Ok(vec![7, 7]));
    assert_eq!(host.files.get(CACHED), Some(&vec![7, 7]));
}

#[test]
fn push_overwrites_what_the_cache_held() {
    let mut host = Host::new();
    host.files.insert(CACHED.to_string(), vec![0]);
    host.run(client().push(reference(), vec![1, 1])).expect("the push goes well");
    assert_eq!(host.run(client().pull(reference())), Ok(vec![1, 1]));
}

#[test]
fn push_tells_remote_failures_apart() {
    let cases = [
        (Response::Unreachable, CommandError::RegistryUnreachable),
        (Response::NotFound, CommandError::ReferenceNotFound),
        (Response::AuthRejected, CommandError::AuthRejected),
        (Response::PayloadRejected, CommandError::PayloadRejected),
        (Response::Failed, CommandError::RegistryUnreachable),
        (Response::Bytes(vec![1]), CommandError::RegistryUnreachable),
    ];
    for (answer, expected) in cases {
        let mut host = Host::new();
        host.files.insert(CACHED.to_string(), vec![0]);
        host.remote_answer = Some(answer);
        let result = host.run(client().push(reference(), vec![1, 1]));
        assert_eq!(result, Err(expected));
        assert_eq!(host.files.get(CACHED), Some(&vec![0]));
        assert_eq!(host.asked.len(), 1);
    }
}

#[test]
fn failure_of_names_the_remote_failure() {
    assert_eq!(failure_of(&Response::NotFound), CommandError::ReferenceNotFound);
    assert_eq!(failure_of(&Response::AuthRejected), CommandError::AuthRejected);
    assert_eq!(failure_of(&Response::PayloadRejected), CommandError::PayloadRejected);
    assert_eq!(failure_of(&Response::Unreachable), CommandError::RegistryUnreachable);
    assert_eq!(failure_of(&Response::Failed), CommandError::RegistryUnreachable);
}

#[test]
fn an_interrupted_store_leaves_the_old_artifact() {
    // Stop after every prefix of the requests of a pull that misses: the
    // cache file holds the old bytes or the new ones, never anything else.
    for stop_after in 0..6 {
        let mut host = Host::new();
        host.registry.insert("registry.example/ns/comp:1.0".to_string(), vec![4, 5, 6, 7]);
        let mut progress = client().pull(reference());
        let mut done = 0;
        loop {
            if done == stop_after {
                break;
            }
            match progress {
                TransferProgress::Pending(transfer, request) => {
                    let response = host.perform(request);
                    done += 1;
                    progress = transfer.advance(response);
                }
                TransferProgress::Finished(_) => break,
            }
        }
        let held = host.files.get(CACHED);
        assert!(held.is_none() || held == Some(&vec![4, 5, 6, 7]), "after {} requests", stop_after);
    }
}
