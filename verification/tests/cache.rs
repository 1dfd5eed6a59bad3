use std::collections::HashMap;

use wash::cache::{escape_text, ArtifactCache, CacheEntry, PutProgress};
use wash::effect::{Request, Response};
use wash::error::CommandError;
use wash::reference::Reference;

fn reference(text: &str) -> Reference {
    Reference::parse(text).expect("a valid reference")
}

fn cache() -> ArtifactCache {
    ArtifactCache::new("/var/cache/wash/oci".to_string())
}

#[test]
fn escape_keeps_plain_characters() {
    assert_eq!(escape_text("registry.example-0"), "registry.example-0");
    assert_eq!(escape_text(""), "");
}

#[test]
fn escape_writes_other_characters_as_hex() {
    assert_eq!(escape_text("/"), "_2f");
    assert_eq!(escape_text(":"), "_3a");
    assert_eq!(escape_text("@"), "_40");
    assert_eq!(escape_text("_"), "_5f");
    assert_eq!(escape_text("A"), "_41");
    assert_eq!(escape_text("a/b:c"), "a_2fb_3ac");
}

#[test]
fn escape_tells_an_escape_from_what_looks_like_one() {
    assert_ne!(escape_text("/"), escape_text("_2f"));
    assert_eq!(escape_text("_2f"), "_5f2f");
}

#[test]
fn path_for_is_below_the_root() {
    let path = cache().path_for(&reference("registry.example/ns/comp:1.0"));
    assert_eq!(path, "/var/cache/wash/oci/registry.example_2fns_2fcomp_3a1.0.wasm");
}

#[test]
fn path_for_is_stable() {
    let reference = reference("registry.example/ns/comp:1.0");
    let first = cache().path_for(&reference);
    let second = cache().path_for(&reference);
    let third = cache().path_for(&reference.clone());
    assert_eq!(first, second);
    assert_eq!(first, third);
}

#[test]
fn path_for_tells_references_apart() {
    let texts = [
        "registry.example/ns/comp:1.0",
        "registry.example/ns/comp:1.1",
        "registry.example/ns/comp@sha256:10",
        "registry.example/ns-comp:1.0",
        "registry.example/ns_comp:1.0",
        "registry.example/ns.comp:1.0",
        "registry.example/ns/comp:1_0",
        "registry.example/ns_2fcomp:1.0",
        "registry.example/ns/comp_3a1.0:1.0",
        "registry.example:443/ns/comp:1.0",
        "registry.example/ns/comp:A",
        "registry.example/ns/comp:a",
    ];
    let mut paths: Vec<String> = Vec::new();
    for text in texts.iter() {
        let path = cache().path_for(&reference(text));
        assert!(!paths.contains(&path), "{} shares its file", text);
        paths.push(path);
    }
}

#[test]
fn path_for_depends_on_the_root() {
    let reference = reference("registry.example/ns/comp:1.0");
    let here = ArtifactCache::new("a".to_string()).path_for(&reference);
    let there = ArtifactCache::new("b".to_string()).path_for(&reference);
    assert_eq!(here, "a/registry.example_2fns_2fcomp_3a1.0.wasm");
    assert_eq!(there, "b/registry.example_2fns_2fcomp_3a1.0.wasm");
}

#[test]
fn staging_path_is_beside_the_cache_file() {
    let path = cache().staging_path_for(&reference("registry.example/ns/comp:1.0"));
    assert_eq!(path, "/var/cache/wash/oci/registry.example_2fns_2fcomp_3a1.0.wasm.tmp");
}

#[test]
fn lock_path_is_beside_the_cache_file() {
    let reference = reference("registry.example/ns/comp:1.0");
    let path = cache().lock_path_for(&reference);
    assert_eq!(path, "/var/cache/wash/oci/registry.example_2fns_2fcomp_3a1.0.wasm.lock");
    assert_ne!(path, cache().path_for(&reference));
    assert_ne!(path, cache().staging_path_for(&reference));
}

#[test]
fn root_is_kept() {
    assert_eq!(cache().root(), "/var/cache/wash/oci");
    assert_eq!(cache().clone().root(), "/var/cache/wash/oci");
}

#[test]
fn get_reads_the_cache_file() {
    let request = cache().get(&reference("registry.example/ns/comp:1.0"));
    assert_eq!(
        request,
        Request::ReadFile {
            path: "/var/cache/wash/oci/registry.example_2fns_2fcomp_3a1.0.wasm".to_string()
        }
    );
}

#[test]
fn found_hands_out_the_bytes() {
    assert_eq!(ArtifactCache::found(Response::Bytes(vec![1, 2, 3])), Ok(Some(vec![1, 2, 3])));
    assert_eq!(ArtifactCache::found(Response::Bytes(vec![])), Ok(Some(vec![])));
}

#[test]
fn found_takes_a_missing_file_as_a_miss() {
    assert_eq!(ArtifactCache::found(Response::Missing), Ok(None));
}

#[test]
fn found_takes_anything_else_as_a_read_failure() {
    assert_eq!(ArtifactCache::found(Response::Failed), Err(CommandError::CacheReadFailure));
    assert_eq!(ArtifactCache::found(Response::Done), Err(CommandError::CacheReadFailure));
    assert_eq!(ArtifactCache::found(Response::NotFound), Err(CommandError::CacheReadFailure));
}

#[test]
fn put_stages_and_renames() {
    let reference = reference("registry.example/ns/comp:1.0");
    let target = "/var/cache/wash/oci/registry.example_2fns_2fcomp_3a1.0.wasm".to_string();
    let staging = "/var/cache/wash/oci/registry.example_2fns_2fcomp_3a1.0.wasm.tmp".to_string();

    let (task, request) = match cache().put(&reference, vec![9, 8, 7]) {
        PutProgress::Pending(task, request) => (task, request),
        PutProgress::Finished(result) => panic!("finished too early: {:?}", result),
    };
    assert_eq!(request, Request::CreateDirAll { path: "/var/cache/wash/oci".to_string() });

    let (task, request) = match task.advance(Response::Done) {
        PutProgress::Pending(task, request) => (task, request),
        PutProgress::Finished(result) => panic!("finished too early: {:?}", result),
    };
    assert_eq!(request, Request::WriteFile { path: staging.clone(), bytes: vec![9, 8, 7] });

    let (task, request) = match task.advance(Response::Done) {
        PutProgress::Pending(task, request) => (task, request),
        PutProgress::Finished(result) => panic!("finished too early: {:?}", result),
    };
    assert_eq!(request, Request::Rename { from: staging, to: target });

    match task.advance(Response::Done) {
        PutProgress::Finished(result) => assert_eq!(result, Ok(vec![9, 8, 7])),
        PutProgress::Pending(_, request) => panic!("asked for more: {:?}", request),
    }
}

#[test]
fn put_fails_at_the_first_refusal() {
    let reference = reference("registry.example/ns/comp:1.0");
    for failing in 0..3 {
        let mut progress = cache().put(&reference, vec![1]);
        let mut asked = 0;
        let result = loop {
            match progress {
                PutProgress::Pending(task, _) => {
                    let response = if asked == failing { Response::Failed } else { Response::Done };
                    asked += 1;
                    progress = task.advance(response);
                }
                PutProgress::Finished(result) => break result,
            }
        };
        assert_eq!(result, Err(CommandError::CacheWriteFailure));
        assert_eq!(asked, failing + 1);
    }
}

#[test]
fn put_never_writes_the_cache_file_in_place() {
    let reference = reference("registry.example/ns/comp:1.0");
    let target = cache().path_for(&reference);
    let mut progress = cache().put(&reference, vec![1, 2]);
    loop {
        match progress {
            PutProgress::Pending(task, request) => {
                if let Request::WriteFile { path, .. } = &request {
                    assert_ne!(path, &target);
                }
                progress = task.advance(Response::Done);
            }
            PutProgress::Finished(_) => break,
        }
    }
}

#[test]
fn entry_names_the_file_and_its_length() {
    let reference = reference("registry.example/ns/comp:1.0");
    let entry = cache().entry(&reference, &vec![1, 2, 3, 4, 5]);
    assert_eq!(
        entry,
        CacheEntry {
            reference: reference.clone(),
            path: "/var/cache/wash/oci/registry.example_2fns_2fcomp_3a1.0.wasm".to_string(),
            len: 5,
        }
    );
    assert_eq!(Request::ReadFile { path: entry.path }, cache().get(&entry.reference));
}

/// Carries out `request` on `files`. With `cut` set, a write stops half way
/// and a rename does not happen.
fn carry_out(files: &mut HashMap<String, Vec<u8>>, request: Request, cut: bool) {
    match request {
        Request::WriteFile { path, bytes } => {
            let kept = if cut { bytes.len() / 2 } else { bytes.len() };
            files.insert(path, bytes[..kept].to_vec());
        }
        Request::Rename { from, to } => {
            if !cut {
                let bytes = files.remove(&from).expect("the staged file");
                files.insert(to, bytes);
            }
        }
        _ => {}
    }
}

fn looked_up(files: &HashMap<String, Vec<u8>>, reference: &Reference) -> Option<Vec<u8>> {
    let response = match cache().get(reference) {
        Request::ReadFile { path } => match files.get(&path) {
            Some(bytes) => Response::Bytes(bytes.clone()),
            None => Response::Missing,
        },
        other => panic!("a lookup reads a file, not {:?}", other),
    };
    ArtifactCache::found(response).expect("a readable cache")
}

#[test]
fn a_store_cut_short_leaves_the_old_artifact_or_the_new() {
    let reference = reference("registry.example/ns/comp:1.0");
    let old = vec![1, 1, 1, 1];
    let new = vec![2, 2, 2, 2, 2, 2];
    for cut_at in 0..3 {
        let mut files: HashMap<String, Vec<u8>> = HashMap::new();
        files.insert(cache().path_for(&reference), old.clone());
        let mut progress = cache().put(&reference, new.clone());
        let mut done = 0;
        loop {
            match progress {
                PutProgress::Pending(task, request) => {
                    if done == cut_at {
                        carry_out(&mut files, request, true);
                        break;
                    }
                    carry_out(&mut files, request, false);
                    done += 1;
                    progress = task.advance(Response::Done);
                }
                PutProgress::Finished(_) => break,
            }
        }
        let got = looked_up(&files, &reference);
        assert!(got == Some(old.clone()) || got == Some(new.clone()), "cut at {}: {:?}", cut_at, got);
    }
}

#[test]
fn a_store_that_ends_is_found_by_the_next_lookup() {
    let reference = reference("registry.example/ns/comp:1.0");
    let other = reference_other();
    let mut files: HashMap<String, Vec<u8>> = HashMap::new();
    files.insert(cache().path_for(&other), vec![7]);
    for bytes in [vec![1, 2, 3], vec![], vec![9; 40]] {
        let mut progress = cache().put(&reference, bytes.clone());
        loop {
            match progress {
                PutProgress::Pending(task, request) => {
                    carry_out(&mut files, request, false);
                    progress = task.advance(Response::Done);
                }
                PutProgress::Finished(result) => {
                    assert_eq!(result, Ok(bytes.clone()));
                    break;
                }
            }
        }
        assert_eq!(looked_up(&files, &reference), Some(bytes));
        assert_eq!(looked_up(&files, &other), Some(vec![7]));
    }
}

fn reference_other() -> Reference {
    reference("registry.example/ns/other:1.0")
}
