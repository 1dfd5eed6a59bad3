//! The artifact cache: where the component behind a reference is kept on disk.
//!
//! Every reference has one file below the cache root. The file name is the
//! text of the reference with every character outside `a-z`, `0-9`, `.` and
//! `-` replaced by `_` and the two hex digits of its code, so that the name is
//! safe on every file system and no two references share a file.

use vstd::prelude::*;
use vstd::string::{StrSliceExecFns, StringExecFns};
use crate::effect::{Request, RequestView, Response, ResponseView, World};
use crate::error::CommandError;
use crate::reference::{
    is_ascii_text, is_digit, is_lower, is_reference, lemma_reference_is_ascii, Reference,
};

verus! {

/// The hex digits, in order.
pub const HEX_DIGITS: &'static str = "0123456789abcdef";

/// Whether `c` stands for itself in a file name.
pub open spec fn is_plain(c: char) -> bool {
    is_lower(c) || is_digit(c) || c == '.' || c == '-'
}

/// The hex digit for `n`, in lower case.
pub open spec fn hex_digit(n: int) -> char {
    if n < 10 {
        (48 + n) as char
    } else {
        (87 + n) as char
    }
}

/// The number a lower-case hex digit stands for.
pub open spec fn hex_value(c: char) -> int {
    if c as int <= 57 {
        c as int - 48
    } else {
        c as int - 87
    }
}

/// How one character is written in a file name.
pub open spec fn escape_char(c: char) -> Seq<char> {
    if is_plain(c) {
        seq![c]
    } else {
        seq!['_', hex_digit((c as int / 16) % 16), hex_digit(c as int % 16)]
    }
}

/// How a text is written in a file name: character by character.
pub open spec fn escape(text: Seq<char>) -> Seq<char>
    decreases text.len(),
{
    if text.len() == 0 {
        Seq::empty()
    } else {
        escape_char(text[0]) + escape(text.drop_first())
    }
}

/// Reads a file name back into the text it was written from.
pub open spec fn unescape(name: Seq<char>) -> Seq<char>
    decreases name.len(),
{
    if name.len() == 0 {
        Seq::empty()
    } else if name[0] == '_' && name.len() >= 3 {
        seq![(hex_value(name[1]) * 16 + hex_value(name[2])) as char] + unescape(name.skip(3))
    } else {
        seq![name[0]] + unescape(name.drop_first())
    }
}

/// The file that holds the artifact of `reference` in the cache at `root`.
pub open spec fn cache_file(root: Seq<char>, reference: Seq<char>) -> Seq<char> {
    root + seq!['/'] + escape(reference) + seq!['.', 'w', 'a', 's', 'm']
}

/// The file in which a new artifact of `reference` is written before it
/// takes the place of the old one.
pub open spec fn staging_file(root: Seq<char>, reference: Seq<char>) -> Seq<char> {
    cache_file(root, reference) + seq!['.', 't', 'm', 'p']
}

/// The file on which the stores of `reference` take turns: a store holds the
/// lock on it from its first request to its end.
pub open spec fn lock_file(root: Seq<char>, reference: Seq<char>) -> Seq<char> {
    cache_file(root, reference) + seq!['.', 'l', 'o', 'c', 'k']
}

/// Writes `text` as a file name.
pub fn escape_text(text: &str) -> (name: String)
    ensures
        name@ == escape(text@),
{
    let n = text.unicode_len();
    let mut name = String::new();
    let mut i: usize = 0;
    while i < n
        invariant
            n == text@.len(),
            i <= n,
            name@ == escape(text@.take(i as int)),
        decreases n - i,
    {
        let c = text.get_char(i);
        let plain = ('a' <= c && c <= 'z') || ('0' <= c && c <= '9') || c == '.' || c == '-';
        proof {
            lemma_escape_push(text@.take(i as int), c);
            assert(text@.take(i + 1) =~= text@.take(i as int).push(c));
            reveal_strlit("0123456789abcdef");
            reveal_strlit("_");
        }
        if plain {
            name.append(text.substring_char(i, i + 1));
            assert(text@.subrange(i as int, i + 1) =~= seq![c]);
        } else {
            let code: u32 = c as u32;
            let high: usize = ((code / 16) % 16) as usize;
            let low: usize = (code % 16) as usize;
            let ghost before = name@;
            name.append("_");
            name.append(HEX_DIGITS.substring_char(high, high + 1));
            name.append(HEX_DIGITS.substring_char(low, low + 1));
            assert(HEX_DIGITS@.subrange(high as int, high + 1) =~= seq![hex_digit(high as int)]);
            assert(HEX_DIGITS@.subrange(low as int, low + 1) =~= seq![hex_digit(low as int)]);
            assert(name@ =~= before + escape_char(c));
        }
        i = i + 1;
    }
    assert(text@.take(n as int) =~= text@);
    name
}

/// The place on disk below which artifacts are kept.
///
/// Its view is the path of the cache root.
#[derive(Debug)]
pub struct ArtifactCache {
    root: String,
}

impl View for ArtifactCache {
    type V = Seq<char>;

    closed spec fn view(&self) -> Seq<char> {
        self.root@
    }
}

impl Clone for ArtifactCache {
    fn clone(&self) -> (copy: Self)
        ensures
            copy@ == self@,
    {
        ArtifactCache { root: self.root.clone() }
    }
}

/// What the cache knows of one artifact it holds: whose it is, where it is
/// kept, and how long it is.
///
/// An entry comes into being when a store ends well, and it names the file
/// that the next lookup of its reference reads ([`lemma_entry_of_a_store`]).
#[derive(Debug, PartialEq, Eq)]
pub struct CacheEntry {
    pub reference: Reference,
    pub path: String,
    pub len: usize,
}

/// What a [`CacheEntry`] holds.
pub struct CacheEntryView {
    pub reference: Seq<char>,
    pub path: Seq<char>,
    pub len: nat,
}

impl View for CacheEntry {
    type V = CacheEntryView;

    open spec fn view(&self) -> CacheEntryView {
        CacheEntryView { reference: self.reference@, path: self.path@, len: self.len as nat }
    }
}

/// The entry of `reference` in the cache at `root` once `bytes` are stored
/// for it.
pub open spec fn entry_of(root: Seq<char>, reference: Seq<char>, bytes: Seq<u8>) -> CacheEntryView {
    CacheEntryView { reference, path: cache_file(root, reference), len: bytes.len() }
}

/// What a lookup result holds.
pub open spec fn cached_of(result: Result<Option<Vec<u8>>, CommandError>) -> Result<
    Option<Seq<u8>>,
    CommandError,
> {
    match result {
        Ok(Some(bytes)) => Ok(Some(bytes@)),
        Ok(None) => Ok(None),
        Err(e) => Err(e),
    }
}

/// The request that looks `reference` up in the cache at `root`.
pub open spec fn lookup_request(root: Seq<char>, reference: Seq<char>) -> RequestView {
    RequestView::ReadFile { path: cache_file(root, reference) }
}

/// What a lookup found, from the answer to its request.
pub open spec fn lookup_result(response: ResponseView) -> Result<Option<Seq<u8>>, CommandError> {
    match response {
        ResponseView::Bytes(bytes) => Ok(Some(bytes)),
        ResponseView::Missing => Ok(None),
        _ => Err(CommandError::CacheReadFailure),
    }
}

/// How far a store has come.
#[derive(Clone, Copy, Debug, PartialEq, Eq, Structural)]
pub enum PutStage {
    /// The cache root is being created.
    CreatingDir,
    /// The bytes are being written to the staging file.
    Writing,
    /// The staging file is being moved over the cache file.
    Renaming,
}

/// A store that is under way.
#[derive(Debug)]
pub struct PutTask {
    stage: PutStage,
    staging: String,
    target: String,
    bytes: Vec<u8>,
}

/// What a [`PutTask`] holds.
pub struct PutTaskView {
    pub stage: PutStage,
    pub staging: Seq<char>,
    pub target: Seq<char>,
    pub bytes: Seq<u8>,
}

impl View for PutTask {
    type V = PutTaskView;

    closed spec fn view(&self) -> PutTaskView {
        PutTaskView {
            stage: self.stage,
            staging: self.staging@,
            target: self.target@,
            bytes: self.bytes@,
        }
    }
}

/// Where a store stands after a step.
#[derive(Debug)]
pub enum PutProgress {
    /// The host is to carry out the request and hand the answer to the task.
    Pending(PutTask, Request),
    /// The store is over: the bytes that are now in the cache, or the failure.
    Finished(Result<Vec<u8>, CommandError>),
}

/// What a [`PutProgress`] holds.
pub enum PutProgressView {
    Pending(PutTaskView, RequestView),
    Finished(Result<Seq<u8>, CommandError>),
}

impl View for PutProgress {
    type V = PutProgressView;

    open spec fn view(&self) -> PutProgressView {
        match self {
            PutProgress::Pending(task, request) => PutProgressView::Pending(task@, request@),
            PutProgress::Finished(result) => PutProgressView::Finished(crate::effect::bytes_of(*result)),
        }
    }
}

/// The three requests of a store, in order: create the cache root, write the
/// staging file, move it over the cache file.
pub open spec fn put_requests(root: Seq<char>, reference: Seq<char>, bytes: Seq<u8>) -> Seq<
    RequestView,
> {
    seq![
        RequestView::CreateDirAll { path: root },
        RequestView::WriteFile { path: staging_file(root, reference), bytes },
        RequestView::Rename {
            from: staging_file(root, reference),
            to: cache_file(root, reference),
        },
    ]
}

/// A store at its beginning.
pub open spec fn put_start(root: Seq<char>, reference: Seq<char>, bytes: Seq<u8>) -> PutProgressView {
    PutProgressView::Pending(
        PutTaskView {
            stage: PutStage::CreatingDir,
            staging: staging_file(root, reference),
            target: cache_file(root, reference),
            bytes,
        },
        RequestView::CreateDirAll { path: root },
    )
}

/// One step of a store: any answer but `Done` ends it as a write failure,
/// and `Done` leads to the next request or, after the rename, to the end.
pub open spec fn put_step(task: PutTaskView, response: ResponseView) -> PutProgressView {
    if response != ResponseView::Done {
        PutProgressView::Finished(Err(CommandError::CacheWriteFailure))
    } else {
        match task.stage {
            PutStage::CreatingDir => PutProgressView::Pending(
                PutTaskView { stage: PutStage::Writing, ..task },
                RequestView::WriteFile { path: task.staging, bytes: task.bytes },
            ),
            PutStage::Writing => PutProgressView::Pending(
                PutTaskView { stage: PutStage::Renaming, ..task },
                RequestView::Rename { from: task.staging, to: task.target },
            ),
            PutStage::Renaming => PutProgressView::Finished(Ok(task.bytes)),
        }
    }
}

impl ArtifactCache {
    /// A cache below `root`.
    pub fn new(root: String) -> (cache: ArtifactCache)
        ensures
            cache@ == root@,
    {
        ArtifactCache { root }
    }

    /// The cache root.
    pub fn root(&self) -> (root: &str)
        ensures
            root@ == self@,
    {
        self.root.as_str()
    }

    /// The file that holds the artifact of `reference`.
    ///
    /// The path depends on the cache root and on the text of the reference
    /// and on nothing else, and distinct references have distinct paths
    /// ([`lemma_cache_file_injective`]).
    pub fn path_for(&self, reference: &Reference) -> (path: String)
        ensures
            path@ == cache_file(self@, reference@),
    {
        let mut path = self.root.clone();
        path.append("/");
        let name = escape_text(reference.as_str());
        path.append(name.as_str());
        path.append(".wasm");
        proof {
            reveal_strlit("/");
            reveal_strlit(".wasm");
            assert(path@ =~= cache_file(self@, reference@));
        }
        path
    }

    /// The entry of `reference` once `bytes` are stored for it.
    pub fn entry(&self, reference: &Reference, bytes: &Vec<u8>) -> (entry: CacheEntry)
        ensures
            entry@ == entry_of(self@, reference@, bytes@),
    {
        CacheEntry {
            reference: reference.clone(),
            path: self.path_for(reference),
            len: bytes.len(),
        }
    }

    /// The file on which the stores of `reference` take turns.
    pub fn lock_path_for(&self, reference: &Reference) -> (path: String)
        ensures
            path@ == lock_file(self@, reference@),
    {
        let mut path = self.path_for(reference);
        path.append(".lock");
        proof {
            reveal_strlit(".lock");
            assert(path@ =~= lock_file(self@, reference@));
        }
        path
    }

    /// The request that looks `reference` up in the cache.
    pub fn get(&self, reference: &Reference) -> (request: Request)
        ensures
            request@ == lookup_request(self@, reference@),
    {
        Request::ReadFile { path: self.path_for(reference) }
    }

    /// What a lookup found, from the answer to the request of [`Self::get`]:
    /// the bytes if the file is there, nothing if it is missing, and a
    /// failure if it is there and cannot be read.
    pub fn found(response: Response) -> (result: Result<Option<Vec<u8>>, CommandError>)
        ensures
            cached_of(result) == lookup_result(response@),
    {
        match response {
            Response::Bytes(bytes) => Ok(Some(bytes)),
            Response::Missing => Ok(None),
            _ => Err(CommandError::CacheReadFailure),
        }
    }

    /// Begins to store `bytes` as the artifact of `reference`.
    ///
    /// The bytes go to a staging file first and take the place of the cache
    /// file by a rename, so that the cache file holds the old artifact or the
    /// new one at every moment ([`lemma_put_is_atomic`]). Two stores of one
    /// reference share their staging file and must take turns: once the cache
    /// root is there, the host takes the lock on [`Self::lock_path_for`] and
    /// holds it until the store has ended.
    pub fn put(&self, reference: &Reference, bytes: Vec<u8>) -> (progress: PutProgress)
        ensures
            progress@ == put_start(self@, reference@, bytes@),
    {
        let task = PutTask {
            stage: PutStage::CreatingDir,
            staging: self.staging_path_for(reference),
            target: self.path_for(reference),
            bytes,
        };
        PutProgress::Pending(task, Request::CreateDirAll { path: self.root.clone() })
    }

    /// The file in which a new artifact of `reference` is written before it
    /// takes the place of the old one.
    pub fn staging_path_for(&self, reference: &Reference) -> (path: String)
        ensures
            path@ == staging_file(self@, reference@),
    {
        let mut path = self.path_for(reference);
        path.append(".tmp");
        proof {
            reveal_strlit(".tmp");
            assert(path@ =~= staging_file(self@, reference@));
        }
        path
    }
}

impl PutTask {
    /// Takes the host's answer to the pending request and says how the store
    /// goes on.
    pub fn advance(self, response: Response) -> (progress: PutProgress)
        ensures
            progress@ == put_step(self@, response@),
    {
        match response {
            Response::Done => match self.stage {
                PutStage::CreatingDir => {
                    let request = Request::WriteFile {
                        path: self.staging.clone(),
                        bytes: self.bytes.clone(),
                    };
                    PutProgress::Pending(
                        PutTask {
                            stage: PutStage::Writing,
                            staging: self.staging,
                            target: self.target,
                            bytes: self.bytes,
                        },
                        request,
                    )
                },
                PutStage::Writing => {
                    let request = Request::Rename {
                        from: self.staging.clone(),
                        to: self.target.clone(),
                    };
                    PutProgress::Pending(
                        PutTask {
                            stage: PutStage::Renaming,
                            staging: self.staging,
                            target: self.target,
                            bytes: self.bytes,
                        },
                        request,
                    )
                },
                PutStage::Renaming => PutProgress::Finished(Ok(self.bytes)),
            },
            _ => PutProgress::Finished(Err(CommandError::CacheWriteFailure)),
        }
    }
}

/// A lock file is never the cache file or the staging file of any reference,
/// so that taking the lock changes no artifact.
pub proof fn lemma_lock_is_no_artifact(root: Seq<char>, a: Seq<char>, b: Seq<char>)
    ensures
        lock_file(root, a) != cache_file(root, b),
        lock_file(root, a) != staging_file(root, b),
{
    let la = lock_file(root, a);
    let fb = cache_file(root, b);
    let sb = staging_file(root, b);
    assert(la[la.len() - 1] == 'k');
    assert(fb[fb.len() - 1] == 'm');
    assert(sb[sb.len() - 1] == 'p');
}

/// Escaping goes character by character, so it can be done from the left.
pub proof fn lemma_escape_push(text: Seq<char>, c: char)
    ensures
        escape(text.push(c)) == escape(text) + escape_char(c),
    decreases text.len(),
{
    if text.len() == 0 {
        assert(text.push(c).drop_first() =~= Seq::<char>::empty());
        assert(escape(text.push(c)) =~= escape_char(c) + escape(Seq::<char>::empty()));
        assert(escape(text) + escape_char(c) =~= escape_char(c));
        assert(escape_char(c) + Seq::<char>::empty() =~= escape_char(c));
    } else {
        lemma_escape_push(text.drop_first(), c);
        assert(text.push(c).drop_first() =~= text.drop_first().push(c));
        assert(text.push(c)[0] == text[0]);
        assert(escape_char(text[0]) + (escape(text.drop_first()) + escape_char(c)) =~= (escape_char(
            text[0],
        ) + escape(text.drop_first())) + escape_char(c));
    }
}

/// A file name reads back as the text it was written from.
pub proof fn lemma_unescape_escape(text: Seq<char>)
    requires
        is_ascii_text(text),
    ensures
        unescape(escape(text)) == text,
    decreases text.len(),
{
    if text.len() == 0 {
    } else {
        let c = text[0];
        let rest = text.drop_first();
        assert(is_ascii_text(rest)) by {
            assert forall|i: int| 0 <= i < rest.len() implies 0 <= (#[trigger] rest[i]) as int
                <= 127 by {
                assert(rest[i] == text[i + 1]);
            }
        }
        lemma_unescape_escape(rest);
        let name = escape(text);
        assert(name == escape_char(c) + escape(rest));
        if is_plain(c) {
            assert(name[0] == c);
            assert(name.drop_first() =~= escape(rest));
            assert(seq![c] + rest =~= text);
        } else {
            let code = c as int;
            assert(0 <= text[0] as int <= 127);
            let high = (code / 16) % 16;
            let low = code % 16;
            assert(name[0] == '_');
            assert(name[1] == hex_digit(high));
            assert(name[2] == hex_digit(low));
            assert(name.skip(3) =~= escape(rest));
            assert(hex_value(hex_digit(high)) == high);
            assert(hex_value(hex_digit(low)) == low);
            assert(high * 16 + low == code);
            assert((code as char) == c);
            assert(seq![c] + rest =~= text);
        }
    }
}

/// No two texts are written as the same file name.
pub proof fn lemma_escape_injective(a: Seq<char>, b: Seq<char>)
    requires
        is_ascii_text(a),
        is_ascii_text(b),
        escape(a) == escape(b),
    ensures
        a == b,
{
    lemma_unescape_escape(a);
    lemma_unescape_escape(b);
}

/// Distinct references are kept in distinct files.
pub proof fn lemma_cache_file_injective(root: Seq<char>, a: Seq<char>, b: Seq<char>)
    requires
        is_reference(a),
        is_reference(b),
        cache_file(root, a) == cache_file(root, b),
    ensures
        a == b,
{
    let ea = escape(a);
    let eb = escape(b);
    let fa = cache_file(root, a);
    let fb = cache_file(root, b);
    assert(fa.len() == root.len() + 1 + ea.len() + 5);
    assert(fb.len() == root.len() + 1 + eb.len() + 5);
    let start = root.len() as int + 1;
    assert(ea =~= fa.subrange(start, start + ea.len()));
    assert(eb =~= fb.subrange(start, start + eb.len()));
    lemma_reference_is_ascii(a);
    lemma_reference_is_ascii(b);
    lemma_escape_injective(a, b);
}

/// A staging file is never the cache file of any reference.
pub proof fn lemma_staging_is_no_cache_file(root: Seq<char>, a: Seq<char>, b: Seq<char>)
    ensures
        staging_file(root, a) != cache_file(root, b),
{
    let sa = staging_file(root, a);
    let fb = cache_file(root, b);
    assert(sa[sa.len() - 1] == 'p');
    assert(fb[fb.len() - 1] == 'm');
}

/// The course of a store: the world it leaves, the requests it made, and how
/// it ended, if it came to an end.
pub struct PutRun {
    pub world: World,
    pub requests: Seq<RequestView>,
    pub result: Option<Result<Seq<u8>, CommandError>>,
}

/// Carries a store on from `progress` for at most `steps` requests, in a world
/// that does what it is asked.
pub open spec fn run_put(world: World, progress: PutProgressView, steps: nat) -> PutRun
    decreases steps,
{
    match progress {
        PutProgressView::Finished(result) => PutRun {
            world,
            requests: Seq::empty(),
            result: Some(result),
        },
        PutProgressView::Pending(task, request) => if steps == 0 {
            PutRun { world, requests: Seq::empty(), result: None }
        } else {
            let rest = run_put(
                world.perform(request),
                put_step(task, world.answer(request)),
                (steps - 1) as nat,
            );
            PutRun { world: rest.world, requests: seq![request] + rest.requests, result: rest.result }
        },
    }
}

/// The world after the first `count` of `requests` were carried out.
pub open spec fn perform_all(world: World, requests: Seq<RequestView>, count: nat) -> World
    decreases count,
{
    if count == 0 {
        world
    } else {
        perform_all(world, requests, (count - 1) as nat).perform(requests[count - 1])
    }
}

/// After a store, a lookup of the same reference finds exactly the bytes that
/// were stored. The store makes its three requests and nothing reaches the
/// registry.
pub proof fn lemma_put_then_get(world: World, root: Seq<char>, reference: Seq<char>, bytes: Seq<u8>)
    ensures
        ({
            let run = run_put(world, put_start(root, reference, bytes), 3);
            &&& run.result == Some(Ok::<Seq<u8>, CommandError>(bytes))
            &&& run.requests == put_requests(root, reference, bytes)
            &&& run.world == perform_all(world, put_requests(root, reference, bytes), 3)
            &&& run.world.read(cache_file(root, reference)) == Some(bytes)
            &&& lookup_result(run.world.answer(lookup_request(root, reference))) == Ok::<
                Option<Seq<u8>>,
                CommandError,
            >(Some(bytes))
            &&& run.world.registry == world.registry
        }),
{
    reveal_with_fuel(run_put, 4);
    reveal_with_fuel(perform_all, 4);
    let requests = put_requests(root, reference, bytes);
    let run = run_put(world, put_start(root, reference, bytes), 3);
    lemma_staging_is_no_cache_file(root, reference, reference);
    assert(run.requests =~= requests);
}

/// The entry of a store that ended well tells the truth: the file it names
/// holds the bytes that were stored, it is as long as the entry says, and it
/// is the file that the next lookup of the entry's reference reads.
pub proof fn lemma_entry_of_a_store(
    world: World,
    root: Seq<char>,
    reference: Seq<char>,
    bytes: Seq<u8>,
)
    ensures
        ({
            let run = run_put(world, put_start(root, reference, bytes), 3);
            let entry = entry_of(root, reference, bytes);
            &&& run.result == Some(Ok::<Seq<u8>, CommandError>(bytes))
            &&& run.world.read(entry.path) == Some(bytes)
            &&& run.world.read(entry.path)->0.len() == entry.len
            &&& lookup_request(root, entry.reference) == (RequestView::ReadFile { path: entry.path })
            &&& lookup_result(run.world.answer(lookup_request(root, entry.reference))) == Ok::<
                Option<Seq<u8>>,
                CommandError,
            >(Some(bytes))
        }),
{
    lemma_put_then_get(world, root, reference, bytes);
}

/// A store of one reference leaves the artifact of every other reference as
/// it was: what a lookup found before, it finds after.
pub proof fn lemma_put_keeps_others(
    world: World,
    root: Seq<char>,
    reference: Seq<char>,
    bytes: Seq<u8>,
    other: Seq<char>,
)
    requires
        is_reference(reference),
        is_reference(other),
        other != reference,
    ensures
        run_put(world, put_start(root, reference, bytes), 3).world.read(cache_file(root, other))
            == world.read(cache_file(root, other)),
{
    reveal_with_fuel(run_put, 4);
    lemma_staging_is_no_cache_file(root, reference, other);
    if cache_file(root, other) == cache_file(root, reference) {
        lemma_cache_file_injective(root, other, reference);
    }
}

/// A store that is interrupted, at any moment, leaves in the cache either the
/// artifact that was there before or the new one, never part of one: a lookup
/// of `reference` finds what it found before the store began, or `bytes`.
pub proof fn lemma_put_is_atomic(
    world: World,
    root: Seq<char>,
    reference: Seq<char>,
    bytes: Seq<u8>,
    done: nat,
    crashed: World,
)
    requires
        done < 3,
        perform_all(world, put_requests(root, reference, bytes), done).may_be_left_by(
            put_requests(root, reference, bytes)[done as int],
            crashed,
        ),
    ensures
        crashed.read(cache_file(root, reference)) == world.read(cache_file(root, reference))
            || crashed.read(cache_file(root, reference)) == Some(bytes),
        lookup_result(crashed.answer(lookup_request(root, reference))) == lookup_result(
            world.answer(lookup_request(root, reference)),
        ) || lookup_result(crashed.answer(lookup_request(root, reference))) == Ok::<
            Option<Seq<u8>>,
            CommandError,
        >(Some(bytes)),
{
    reveal_with_fuel(perform_all, 4);
    lemma_staging_is_no_cache_file(root, reference, reference);
    let requests = put_requests(root, reference, bytes);
    let target = cache_file(root, reference);
    if done == 0 {
    } else if done == 1 {
        assert(crashed.read(target) == world.read(target));
    } else {
        let before = perform_all(world, requests, 2);
        assert(before.read(target) == world.read(target));
    }
}

/// A store that fails leaves the cache as it was: as long as the rename has
/// not been carried out, every cache file holds what it held.
pub proof fn lemma_failed_put_keeps_cache(
    world: World,
    root: Seq<char>,
    reference: Seq<char>,
    bytes: Seq<u8>,
    done: nat,
    any: Seq<char>,
)
    requires
        done < 3,
    ensures
        perform_all(world, put_requests(root, reference, bytes), done).read(cache_file(root, any))
            == world.read(cache_file(root, any)),
{
    reveal_with_fuel(perform_all, 4);
    lemma_staging_is_no_cache_file(root, reference, any);
}

} // verus!
