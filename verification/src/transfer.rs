//! The transfer client: moves artifacts between the registry and the cache.
//!
//! A pull looks in the cache first and goes to the registry only on a miss;
//! what it fetched it stores in the cache before it hands it out. A push
//! uploads first and then stores what it uploaded, so that a later pull of
//! the same reference needs no registry.

use vstd::prelude::*;
use crate::cache::{
    cache_file, lemma_put_then_get, lookup_request, lookup_result, put_start, put_step,
    run_put, ArtifactCache, PutProgress, PutProgressView, PutTask, PutTaskView,
};
use crate::effect::{bytes_of, Request, RequestView, Response, ResponseView, World};
use crate::error::CommandError;
use crate::reference::Reference;

verus! {

/// The transfer client. It holds nothing but the cache it works with.
#[derive(Debug)]
pub struct TransferClient {
    cache: ArtifactCache,
}

impl View for TransferClient {
    type V = Seq<char>;

    /// The root of the client's cache.
    closed spec fn view(&self) -> Seq<char> {
        self.cache@
    }
}

/// A transfer that is under way.
#[derive(Debug)]
pub enum Transfer {
    /// A pull is waiting for the cache file to be read.
    Lookup { cache: ArtifactCache, reference: Reference },
    /// A pull is waiting for the registry to send the artifact.
    Fetching { cache: ArtifactCache, reference: Reference },
    /// A push is waiting for the registry to take the artifact.
    Uploading { cache: ArtifactCache, reference: Reference, bytes: Vec<u8> },
    /// The artifact is being stored in the cache.
    Storing { task: PutTask },
}

/// What a [`Transfer`] holds.
pub enum TransferView {
    Lookup { root: Seq<char>, reference: Seq<char> },
    Fetching { root: Seq<char>, reference: Seq<char> },
    Uploading { root: Seq<char>, reference: Seq<char>, bytes: Seq<u8> },
    Storing { task: PutTaskView },
}

impl View for Transfer {
    type V = TransferView;

    open spec fn view(&self) -> TransferView {
        match self {
            Transfer::Lookup { cache, reference } => TransferView::Lookup {
                root: cache@,
                reference: reference@,
            },
            Transfer::Fetching { cache, reference } => TransferView::Fetching {
                root: cache@,
                reference: reference@,
            },
            Transfer::Uploading { cache, reference, bytes } => TransferView::Uploading {
                root: cache@,
                reference: reference@,
                bytes: bytes@,
            },
            Transfer::Storing { task } => TransferView::Storing { task: task@ },
        }
    }
}

/// Where a transfer stands after a step.
#[derive(Debug)]
pub enum TransferProgress {
    /// The host is to carry out the request and hand the answer to the
    /// transfer.
    Pending(Transfer, Request),
    /// The transfer is over: the bytes of the artifact, or the failure.
    Finished(Result<Vec<u8>, CommandError>),
}

/// What a [`TransferProgress`] holds.
pub enum TransferProgressView {
    Pending(TransferView, RequestView),
    Finished(Result<Seq<u8>, CommandError>),
}

impl View for TransferProgress {
    type V = TransferProgressView;

    open spec fn view(&self) -> TransferProgressView {
        match self {
            TransferProgress::Pending(transfer, request) => TransferProgressView::Pending(
                transfer@,
                request@,
            ),
            TransferProgress::Finished(result) => TransferProgressView::Finished(bytes_of(*result)),
        }
    }
}

/// A store as the last part of a transfer.
pub open spec fn storing(progress: PutProgressView) -> TransferProgressView {
    match progress {
        PutProgressView::Pending(task, request) => TransferProgressView::Pending(
            TransferView::Storing { task },
            request,
        ),
        PutProgressView::Finished(result) => TransferProgressView::Finished(result),
    }
}

/// The failure that an answer of the registry stands for. What is no known
/// refusal counts as an unreachable registry.
pub open spec fn remote_failure(response: ResponseView) -> CommandError {
    match response {
        ResponseView::NotFound => CommandError::ReferenceNotFound,
        ResponseView::AuthRejected => CommandError::AuthRejected,
        ResponseView::PayloadRejected => CommandError::PayloadRejected,
        _ => CommandError::RegistryUnreachable,
    }
}

/// A pull at its beginning: the cache comes first.
pub open spec fn pull_start(root: Seq<char>, reference: Seq<char>) -> TransferProgressView {
    TransferProgressView::Pending(
        TransferView::Lookup { root, reference },
        lookup_request(root, reference),
    )
}

/// A push at its beginning: the upload comes first.
pub open spec fn push_start(root: Seq<char>, reference: Seq<char>, bytes: Seq<u8>) -> TransferProgressView {
    TransferProgressView::Pending(
        TransferView::Uploading { root, reference, bytes },
        RequestView::Upload { reference, bytes },
    )
}

/// One step of a transfer.
///
/// A lookup that finds the artifact ends the pull with it; one that finds
/// nothing leads to the registry; one that fails ends the pull. Bytes from
/// the registry, and an upload that was taken, lead to the store. Any other
/// answer of the registry ends the transfer with the failure it stands for,
/// except that a pull knows no rejected payload. The store goes as stores go.
pub open spec fn transfer_step(transfer: TransferView, response: ResponseView) -> TransferProgressView {
    match transfer {
        TransferView::Lookup { root, reference } => match lookup_result(response) {
            Ok(Some(bytes)) => TransferProgressView::Finished(Ok(bytes)),
            Ok(None) => TransferProgressView::Pending(
                TransferView::Fetching { root, reference },
                RequestView::Fetch { reference },
            ),
            Err(e) => TransferProgressView::Finished(Err(e)),
        },
        TransferView::Fetching { root, reference } => match response {
            ResponseView::Bytes(bytes) => storing(put_start(root, reference, bytes)),
            ResponseView::PayloadRejected => TransferProgressView::Finished(
                Err(CommandError::RegistryUnreachable),
            ),
            _ => TransferProgressView::Finished(Err(remote_failure(response))),
        },
        TransferView::Uploading { root, reference, bytes } => match response {
            ResponseView::Done => storing(put_start(root, reference, bytes)),
            _ => TransferProgressView::Finished(Err(remote_failure(response))),
        },
        TransferView::Storing { task } => storing(put_step(task, response)),
    }
}

/// The exec counterpart of [`remote_failure`].
pub fn failure_of(response: &Response) -> (failure: CommandError)
    ensures
        failure == remote_failure(response@),
{
    match response {
        Response::NotFound => CommandError::ReferenceNotFound,
        Response::AuthRejected => CommandError::AuthRejected,
        Response::PayloadRejected => CommandError::PayloadRejected,
        _ => CommandError::RegistryUnreachable,
    }
}

fn store(progress: PutProgress) -> (lifted: TransferProgress)
    ensures
        lifted@ == storing(progress@),
{
    match progress {
        PutProgress::Pending(task, request) => TransferProgress::Pending(
            Transfer::Storing { task },
            request,
        ),
        PutProgress::Finished(result) => TransferProgress::Finished(result),
    }
}

impl TransferClient {
    /// A client that keeps what it transfers in `cache`.
    pub fn new(cache: ArtifactCache) -> (client: TransferClient)
        ensures
            client@ == cache@,
    {
        TransferClient { cache }
    }

    /// The cache the client works with.
    pub fn cache(&self) -> (cache: &ArtifactCache)
        ensures
            cache@ == self@,
    {
        &self.cache
    }

    /// Begins to pull the artifact behind `reference`.
    pub fn pull(&self, reference: Reference) -> (progress: TransferProgress)
        ensures
            progress@ == pull_start(self@, reference@),
    {
        let request = self.cache.get(&reference);
        TransferProgress::Pending(Transfer::Lookup { cache: self.cache.clone(), reference }, request)
    }

    /// Begins to push `bytes` as the artifact behind `reference`.
    pub fn push(&self, reference: Reference, bytes: Vec<u8>) -> (progress: TransferProgress)
        ensures
            progress@ == push_start(self@, reference@, bytes@),
    {
        let request = Request::Upload { reference: reference.clone(), bytes: bytes.clone() };
        TransferProgress::Pending(
            Transfer::Uploading { cache: self.cache.clone(), reference, bytes },
            request,
        )
    }
}

impl Transfer {
    /// Takes the host's answer to the pending request and says how the
    /// transfer goes on.
    pub fn advance(self, response: Response) -> (progress: TransferProgress)
        ensures
            progress@ == transfer_step(self@, response@),
    {
        match self {
            Transfer::Lookup { cache, reference } => match ArtifactCache::found(response) {
                Ok(Some(bytes)) => TransferProgress::Finished(Ok(bytes)),
                Ok(None) => {
                    let request = Request::Fetch { reference: reference.clone() };
                    TransferProgress::Pending(Transfer::Fetching { cache, reference }, request)
                },
                Err(e) => TransferProgress::Finished(Err(e)),
            },
            Transfer::Fetching { cache, reference } => match response {
                Response::Bytes(bytes) => store(cache.put(&reference, bytes)),
                Response::PayloadRejected => TransferProgress::Finished(
                    Err(CommandError::RegistryUnreachable),
                ),
                other => TransferProgress::Finished(Err(failure_of(&other))),
            },
            Transfer::Uploading { cache, reference, bytes } => match response {
                Response::Done => store(cache.put(&reference, bytes)),
                other => TransferProgress::Finished(Err(failure_of(&other))),
            },
            Transfer::Storing { task } => store(task.advance(response)),
        }
    }
}

/// The course of a transfer: the world it leaves, the requests it made, and
/// how it ended, if it came to an end.
pub struct TransferRun {
    pub world: World,
    pub requests: Seq<RequestView>,
    pub result: Option<Result<Seq<u8>, CommandError>>,
}

/// Carries a transfer on from `progress` for at most `steps` requests, in a
/// world that does what it is asked.
pub open spec fn run_transfer(world: World, progress: TransferProgressView, steps: nat) -> TransferRun
    decreases steps,
{
    match progress {
        TransferProgressView::Finished(result) => TransferRun {
            world,
            requests: Seq::empty(),
            result: Some(result),
        },
        TransferProgressView::Pending(transfer, request) => if steps == 0 {
            TransferRun { world, requests: Seq::empty(), result: None }
        } else {
            let rest = run_transfer(
                world.perform(request),
                transfer_step(transfer, world.answer(request)),
                (steps - 1) as nat,
            );
            TransferRun {
                world: rest.world,
                requests: seq![request] + rest.requests,
                result: rest.result,
            }
        },
    }
}

/// The number of requests in `requests` that go to the registry.
pub open spec fn remote_count(requests: Seq<RequestView>) -> nat
    decreases requests.len(),
{
    if requests.len() == 0 {
        0
    } else {
        remote_count(requests.drop_last()) + if requests.last().is_remote() {
            1nat
        } else {
            0nat
        }
    }
}

/// A pull or a push makes at most five requests.
pub open spec fn transfer_bound() -> nat {
    5
}

/// A pull that finds the artifact in the cache asks for nothing else: it
/// reads one file, goes to no registry, changes nothing and hands out what
/// the file holds.
pub proof fn lemma_pull_hit(world: World, root: Seq<char>, reference: Seq<char>)
    requires
        world.read(cache_file(root, reference)) is Some,
    ensures
        ({
            let run = run_transfer(world, pull_start(root, reference), transfer_bound());
            &&& run.result == Some(
                Ok::<Seq<u8>, CommandError>(world.read(cache_file(root, reference))->0),
            )
            &&& run.requests == seq![lookup_request(root, reference)]
            &&& remote_count(run.requests) == 0
            &&& run.world == world
        }),
{
    reveal_with_fuel(run_transfer, 3);
    reveal_with_fuel(remote_count, 3);
    let run = run_transfer(world, pull_start(root, reference), transfer_bound());
    assert(run.requests =~= seq![lookup_request(root, reference)]);
    assert(run.requests.drop_last() =~= Seq::<RequestView>::empty());
}

/// A pull that misses the cache goes to the registry once. If the registry
/// holds the artifact, the pull hands it out and leaves it in the cache; if
/// not, the pull fails and the cache stays as it was.
pub proof fn lemma_pull_miss(world: World, root: Seq<char>, reference: Seq<char>)
    requires
        world.read(cache_file(root, reference)) is None,
    ensures
        ({
            let run = run_transfer(world, pull_start(root, reference), transfer_bound());
            &&& remote_count(run.requests) == 1
            &&& run.requests[1] == RequestView::Fetch { reference }
            &&& world.registry.contains_key(reference) ==> {
                &&& run.result == Some(Ok::<Seq<u8>, CommandError>(world.registry[reference]))
                &&& run.world.read(cache_file(root, reference)) == Some(world.registry[reference])
            }
            &&& !world.registry.contains_key(reference) ==> {
                &&& run.result == Some(
                    Err::<Seq<u8>, CommandError>(CommandError::ReferenceNotFound),
                )
                &&& run.world == world
            }
        }),
{
    reveal_with_fuel(run_transfer, 6);
    let run = run_transfer(world, pull_start(root, reference), transfer_bound());
    let fetch = RequestView::Fetch { reference };
    if world.registry.contains_key(reference) {
        let bytes = world.registry[reference];
        lemma_put_then_get(world, root, reference, bytes);
        let put = run_put(world, put_start(root, reference, bytes), 3);
        lemma_store_run(world, put_start(root, reference, bytes), 3);
        assert(run.requests =~= seq![lookup_request(root, reference), fetch] + put.requests);
        lemma_remote_count_put(world, root, reference, bytes);
        lemma_remote_count_concat(seq![lookup_request(root, reference), fetch], put.requests);
        lemma_remote_count_two(lookup_request(root, reference), fetch);
    } else {
        assert(run.requests =~= seq![lookup_request(root, reference), fetch]);
        lemma_remote_count_two(lookup_request(root, reference), fetch);
    }
}

/// Two pulls of one reference, with nothing in between, hand out the same
/// bytes, and the second one goes to no registry.
pub proof fn lemma_pull_twice(world: World, root: Seq<char>, reference: Seq<char>)
    ensures
        ({
            let first = run_transfer(world, pull_start(root, reference), transfer_bound());
            let second = run_transfer(first.world, pull_start(root, reference), transfer_bound());
            first.result matches Some(Ok(bytes)) ==> {
                &&& second.result == Some(Ok::<Seq<u8>, CommandError>(bytes))
                &&& remote_count(second.requests) == 0
                &&& second.world == first.world
            }
        }),
{
    let first = run_transfer(world, pull_start(root, reference), transfer_bound());
    if world.read(cache_file(root, reference)) is Some {
        lemma_pull_hit(world, root, reference);
        lemma_pull_hit(first.world, root, reference);
    } else {
        lemma_pull_miss(world, root, reference);
        if world.registry.contains_key(reference) {
            lemma_pull_hit(first.world, root, reference);
        }
    }
}

/// After a push, a pull of the same reference is free: it goes to no registry
/// and hands out exactly the bytes that were pushed.
pub proof fn lemma_push_then_pull(world: World, root: Seq<char>, reference: Seq<char>, bytes: Seq<u8>)
    ensures
        ({
            let pushed = run_transfer(world, push_start(root, reference, bytes), transfer_bound());
            let pulled = run_transfer(pushed.world, pull_start(root, reference), transfer_bound());
            &&& pushed.result == Some(Ok::<Seq<u8>, CommandError>(bytes))
            &&& remote_count(pushed.requests) == 1
            &&& pushed.world.registry == world.registry.insert(reference, bytes)
            &&& pushed.world.read(cache_file(root, reference)) == Some(bytes)
            &&& pulled.result == Some(Ok::<Seq<u8>, CommandError>(bytes))
            &&& remote_count(pulled.requests) == 0
        }),
{
    reveal_with_fuel(run_transfer, 6);
    let upload = RequestView::Upload { reference, bytes };
    let uploaded = world.perform(upload);
    let pushed = run_transfer(world, push_start(root, reference, bytes), transfer_bound());
    lemma_put_then_get(uploaded, root, reference, bytes);
    lemma_store_run(uploaded, put_start(root, reference, bytes), 3);
    let put = run_put(uploaded, put_start(root, reference, bytes), 3);
    assert(pushed.requests =~= seq![upload] + put.requests);
    lemma_remote_count_put(uploaded, root, reference, bytes);
    lemma_remote_count_concat(seq![upload], put.requests);
    reveal_with_fuel(remote_count, 2);
    assert(seq![upload].drop_last() =~= Seq::<RequestView>::empty());
    lemma_pull_hit(pushed.world, root, reference);
}

/// A second push of the same bytes to the same reference goes as well as the
/// first and changes nothing.
pub proof fn lemma_push_twice(world: World, root: Seq<char>, reference: Seq<char>, bytes: Seq<u8>)
    ensures
        ({
            let first = run_transfer(world, push_start(root, reference, bytes), transfer_bound());
            let second = run_transfer(
                first.world,
                push_start(root, reference, bytes),
                transfer_bound(),
            );
            &&& first.result == Some(Ok::<Seq<u8>, CommandError>(bytes))
            &&& second.result == first.result
            &&& second.world.registry == first.world.registry
            &&& forall|path: Seq<char>| #[trigger] second.world.read(path) == first.world.read(path)
        }),
{
    reveal_with_fuel(run_transfer, 6);
    crate::cache::lemma_staging_is_no_cache_file(root, reference, reference);
    let first = run_transfer(world, push_start(root, reference, bytes), transfer_bound());
    let second = run_transfer(first.world, push_start(root, reference, bytes), transfer_bound());
    assert(second.world.registry =~= first.world.registry);
}

/// A transfer that has come to its store goes on as the store does.
pub proof fn lemma_store_run(world: World, progress: PutProgressView, steps: nat)
    ensures
        ({
            let put = run_put(world, progress, steps);
            let run = run_transfer(world, storing(progress), steps);
            &&& run.world == put.world
            &&& run.requests == put.requests
            &&& run.result == put.result
        }),
    decreases steps,
{
    match progress {
        PutProgressView::Finished(result) => {},
        PutProgressView::Pending(task, request) => {
            if steps > 0 {
                lemma_store_run(
                    world.perform(request),
                    put_step(task, world.answer(request)),
                    (steps - 1) as nat,
                );
            }
        },
    }
}

/// Counting registry requests goes part by part.
pub proof fn lemma_remote_count_concat(a: Seq<RequestView>, b: Seq<RequestView>)
    ensures
        remote_count(a + b) == remote_count(a) + remote_count(b),
    decreases b.len(),
{
    if b.len() == 0 {
        assert(a + b =~= a);
    } else {
        lemma_remote_count_concat(a, b.drop_last());
        assert((a + b).drop_last() =~= a + b.drop_last());
        assert((a + b).last() == b.last());
    }
}

proof fn lemma_remote_count_two(first: RequestView, second: RequestView)
    ensures
        remote_count(seq![first, second]) == (if first.is_remote() {
            1nat
        } else {
            0nat
        }) + (if second.is_remote() {
            1nat
        } else {
            0nat
        }),
{
    reveal_with_fuel(remote_count, 3);
    let both = seq![first, second];
    assert(both.drop_last() =~= seq![first]);
    assert(seq![first].drop_last() =~= Seq::<RequestView>::empty());
}

/// A store never goes to the registry.
pub proof fn lemma_remote_count_put(world: World, root: Seq<char>, reference: Seq<char>, bytes: Seq<u8>)
    ensures
        remote_count(run_put(world, put_start(root, reference, bytes), 3).requests) == 0,
{
    lemma_put_then_get(world, root, reference, bytes);
    reveal_with_fuel(remote_count, 4);
    let requests = crate::cache::put_requests(root, reference, bytes);
    assert(requests.drop_last() =~= seq![requests[0], requests[1]]);
    assert(requests.drop_last().drop_last() =~= seq![requests[0]]);
    assert(requests.drop_last().drop_last().drop_last() =~= Seq::<RequestView>::empty());
}

} // verus!
