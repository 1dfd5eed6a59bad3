//! The commands that pull a component from a registry and push one to it.

use vstd::prelude::*;
use vstd::string::StringExecFns;
use crate::cache::cache_file;
use crate::effect::{Request, RequestView, Response, ResponseView, World};
use crate::error::CommandError;
use crate::reference::{is_reference, Reference};
use crate::text::text_of;
use crate::transfer::{
    lemma_pull_miss, lemma_push_then_pull, pull_start, push_start, remote_count, run_transfer, transfer_bound,
    transfer_step, Transfer, TransferClient, TransferProgress, TransferProgressView, TransferView,
};

verus! {

/// Where a pulled component is written when no path is given.
pub const DEFAULT_COMPONENT_PATH: &'static str = "component.wasm";

/// The message of a command that went well.
pub const SUCCESS_MESSAGE: &'static str = "OCI command executed successfully.";

/// The beginning of the message of a pull that went well; the output path
/// follows it.
pub const PULLED_MESSAGE: &'static str = "Pulled and saved component to ";

/// The structured part of a command's result, for machines to read.
#[derive(Clone, Debug, PartialEq, Eq)]
pub struct Payload {
    pub message: String,
    /// The file a pull wrote; absent for a push.
    pub output_path: Option<String>,
    /// The number of bytes of the component: what a pull wrote, what a push
    /// sent.
    pub bytes: usize,
    pub success: bool,
}

/// What a [`Payload`] holds.
pub struct PayloadView {
    pub message: Seq<char>,
    pub output_path: Option<Seq<char>>,
    pub bytes: usize,
    pub success: bool,
}

impl View for Payload {
    type V = PayloadView;

    open spec fn view(&self) -> PayloadView {
        PayloadView {
            message: self.message@,
            output_path: text_of(self.output_path),
            bytes: self.bytes,
            success: self.success,
        }
    }
}

/// The result of a command: a line for people, a payload for machines, and
/// whether the command went well.
#[derive(Clone, Debug, PartialEq, Eq)]
pub struct CommandOutput {
    pub message: String,
    pub payload: Option<Payload>,
    pub success: bool,
}

/// What a [`CommandOutput`] holds.
pub struct CommandOutputView {
    pub message: Seq<char>,
    pub payload: Option<PayloadView>,
    pub success: bool,
}

impl View for CommandOutput {
    type V = CommandOutputView;

    open spec fn view(&self) -> CommandOutputView {
        CommandOutputView {
            message: self.message@,
            payload: match self.payload {
                Some(payload) => Some(payload@),
                None => None,
            },
            success: self.success,
        }
    }
}

impl CommandOutput {
    /// The result of a command that went well.
    pub fn ok(message: String, payload: Option<Payload>) -> (output: CommandOutput)
        ensures
            output.message == message,
            output.payload == payload,
            output.success,
    {
        CommandOutput { message, payload, success: true }
    }
}

/// What a command's result, or its failure, holds.
pub open spec fn outcome_of(result: Result<CommandOutput, CommandError>) -> Result<
    CommandOutputView,
    CommandError,
> {
    match result {
        Ok(output) => Ok(output@),
        Err(e) => Err(e),
    }
}

/// The result of a pull that wrote `count` bytes to `path`.
pub open spec fn pull_output(path: Seq<char>, count: usize) -> CommandOutputView {
    CommandOutputView {
        message: PULLED_MESSAGE@ + path,
        payload: Some(
            PayloadView {
                message: SUCCESS_MESSAGE@,
                output_path: Some(path),
                bytes: count,
                success: true,
            },
        ),
        success: true,
    }
}

/// The result of a push that sent `count` bytes: no output path, since a
/// push writes no file.
pub open spec fn push_output(count: usize) -> CommandOutputView {
    CommandOutputView {
        message: SUCCESS_MESSAGE@,
        payload: Some(
            PayloadView {
                message: SUCCESS_MESSAGE@,
                output_path: None,
                bytes: count,
                success: true,
            },
        ),
        success: true,
    }
}

/// Pulls a component from a registry and writes it to a file.
#[derive(Clone, Debug)]
pub struct PullCommand {
    reference: String,
    component_path: String,
}

/// Reads a component from a file and pushes it to a registry.
#[derive(Clone, Debug)]
pub struct PushCommand {
    reference: String,
    component_path: String,
}

/// What a [`PullCommand`] or a [`PushCommand`] holds: the reference as it was
/// typed, and the path of the component file.
pub struct TransferArguments {
    pub reference: Seq<char>,
    pub component_path: Seq<char>,
}

impl View for PullCommand {
    type V = TransferArguments;

    closed spec fn view(&self) -> TransferArguments {
        TransferArguments { reference: self.reference@, component_path: self.component_path@ }
    }
}

impl View for PushCommand {
    type V = TransferArguments;

    closed spec fn view(&self) -> TransferArguments {
        TransferArguments { reference: self.reference@, component_path: self.component_path@ }
    }
}

/// The commands that work with a registry.
#[derive(Clone, Debug)]
pub enum OciCommand {
    Pull(PullCommand),
    Push(PushCommand),
}

/// A command that is under way.
#[derive(Debug)]
pub enum CommandRun {
    /// A pull is transferring the component.
    Pulling { transfer: Transfer, output: String },
    /// A pull is writing the `count` bytes it got to its output path.
    WritingOutput { output: String, count: usize },
    /// A push is reading the component file.
    ReadingInput { client: TransferClient, reference: String },
    /// A push is transferring the component.
    Pushing { transfer: Transfer },
}

/// What a [`CommandRun`] holds.
pub enum CommandRunView {
    Pulling { transfer: TransferView, output: Seq<char> },
    WritingOutput { output: Seq<char>, count: usize },
    ReadingInput { root: Seq<char>, reference: Seq<char> },
    Pushing { transfer: TransferView },
}

impl View for CommandRun {
    type V = CommandRunView;

    open spec fn view(&self) -> CommandRunView {
        match self {
            CommandRun::Pulling { transfer, output } => CommandRunView::Pulling {
                transfer: transfer@,
                output: output@,
            },
            CommandRun::WritingOutput { output, count } => CommandRunView::WritingOutput {
                output: output@,
                count: *count,
            },
            CommandRun::ReadingInput { client, reference } => CommandRunView::ReadingInput {
                root: client@,
                reference: reference@,
            },
            CommandRun::Pushing { transfer } => CommandRunView::Pushing { transfer: transfer@ },
        }
    }
}

/// Where a command stands after a step.
#[derive(Debug)]
pub enum CommandProgress {
    /// The host is to carry out the request and hand the answer to the run.
    Pending(CommandRun, Request),
    /// The command is over.
    Finished(Result<CommandOutput, CommandError>),
}

/// What a [`CommandProgress`] holds.
pub enum CommandProgressView {
    Pending(CommandRunView, RequestView),
    Finished(Result<CommandOutputView, CommandError>),
}

impl View for CommandProgress {
    type V = CommandProgressView;

    open spec fn view(&self) -> CommandProgressView {
        match self {
            CommandProgress::Pending(run, request) => CommandProgressView::Pending(run@, request@),
            CommandProgress::Finished(result) => CommandProgressView::Finished(outcome_of(*result)),
        }
    }
}

/// A transfer as the first part of a pull: once the bytes are there, they go
/// to the output path; a failure of the transfer is the failure of the pull.
pub open spec fn pulling(progress: TransferProgressView, output: Seq<char>) -> CommandProgressView {
    match progress {
        TransferProgressView::Pending(transfer, request) => CommandProgressView::Pending(
            CommandRunView::Pulling { transfer, output },
            request,
        ),
        TransferProgressView::Finished(Ok(bytes)) => CommandProgressView::Pending(
            CommandRunView::WritingOutput { output, count: bytes.len() as usize },
            RequestView::WriteFile { path: output, bytes },
        ),
        TransferProgressView::Finished(Err(e)) => CommandProgressView::Finished(Err(e)),
    }
}

/// A transfer as the last part of a push: its end is the end of the push,
/// and the push reports the number of bytes that went to the registry.
pub open spec fn pushing(progress: TransferProgressView) -> CommandProgressView {
    match progress {
        TransferProgressView::Pending(transfer, request) => CommandProgressView::Pending(
            CommandRunView::Pushing { transfer },
            request,
        ),
        TransferProgressView::Finished(Ok(bytes)) => CommandProgressView::Finished(
            Ok(push_output(bytes.len() as usize)),
        ),
        TransferProgressView::Finished(Err(e)) => CommandProgressView::Finished(Err(e)),
    }
}

/// A pull at its beginning: a malformed reference ends it at once, before
/// anything is asked of the host.
pub open spec fn pull_handle(root: Seq<char>, command: TransferArguments) -> CommandProgressView {
    if is_reference(command.reference) {
        pulling(pull_start(root, command.reference), command.component_path)
    } else {
        CommandProgressView::Finished(Err(CommandError::ReferenceParseError))
    }
}

/// A push at its beginning: the component file is read before anything else.
pub open spec fn push_handle(root: Seq<char>, command: TransferArguments) -> CommandProgressView {
    CommandProgressView::Pending(
        CommandRunView::ReadingInput { root, reference: command.reference },
        RequestView::ReadFile { path: command.component_path },
    )
}

/// One step of a command.
pub open spec fn command_step(run: CommandRunView, response: ResponseView) -> CommandProgressView {
    match run {
        CommandRunView::Pulling { transfer, output } => pulling(
            transfer_step(transfer, response),
            output,
        ),
        CommandRunView::WritingOutput { output, count } => if response == ResponseView::Done {
            CommandProgressView::Finished(Ok(pull_output(output, count)))
        } else {
            CommandProgressView::Finished(Err(CommandError::OutputWriteFailure))
        },
        CommandRunView::ReadingInput { root, reference } => match response {
            ResponseView::Bytes(bytes) => if is_reference(reference) {
                pushing(push_start(root, reference, bytes))
            } else {
                CommandProgressView::Finished(Err(CommandError::ReferenceParseError))
            },
            _ => CommandProgressView::Finished(Err(CommandError::InputReadFailure)),
        },
        CommandRunView::Pushing { transfer } => pushing(transfer_step(transfer, response)),
    }
}

fn pull_result(output: String, count: usize) -> (result: CommandOutput)
    ensures
        result@ == pull_output(output@, count),
{
    let mut message = PULLED_MESSAGE.to_owned();
    message.append(output.as_str());
    CommandOutput::ok(
        message,
        Some(
            Payload {
                message: SUCCESS_MESSAGE.to_owned(),
                output_path: Some(output),
                bytes: count,
                success: true,
            },
        ),
    )
}

fn push_result(count: usize) -> (result: CommandOutput)
    ensures
        result@ == push_output(count),
{
    CommandOutput::ok(
        SUCCESS_MESSAGE.to_owned(),
        Some(
            Payload {
                message: SUCCESS_MESSAGE.to_owned(),
                output_path: None,
                bytes: count,
                success: true,
            },
        ),
    )
}

fn continue_pull(progress: TransferProgress, output: String) -> (next: CommandProgress)
    ensures
        next@ == pulling(progress@, output@),
{
    match progress {
        TransferProgress::Pending(transfer, request) => CommandProgress::Pending(
            CommandRun::Pulling { transfer, output },
            request,
        ),
        TransferProgress::Finished(Ok(bytes)) => {
            let count = bytes.len();
            let request = Request::WriteFile { path: output.clone(), bytes };
            CommandProgress::Pending(CommandRun::WritingOutput { output, count }, request)
        },
        TransferProgress::Finished(Err(e)) => CommandProgress::Finished(Err(e)),
    }
}

fn continue_push(progress: TransferProgress) -> (next: CommandProgress)
    ensures
        next@ == pushing(progress@),
{
    match progress {
        TransferProgress::Pending(transfer, request) => CommandProgress::Pending(
            CommandRun::Pushing { transfer },
            request,
        ),
        TransferProgress::Finished(Ok(bytes)) => CommandProgress::Finished(
            Ok(push_result(bytes.len())),
        ),
        TransferProgress::Finished(Err(e)) => CommandProgress::Finished(Err(e)),
    }
}

impl PullCommand {
    /// A pull of `reference` to `component_path`, or to
    /// [`DEFAULT_COMPONENT_PATH`] if no path is given.
    pub fn new(reference: String, component_path: Option<String>) -> (command: PullCommand)
        ensures
            command@.reference == reference@,
            command@.component_path == match component_path {
                Some(path) => path@,
                None => DEFAULT_COMPONENT_PATH@,
            },
    {
        let component_path = match component_path {
            Some(path) => path,
            None => DEFAULT_COMPONENT_PATH.to_owned(),
        };
        PullCommand { reference, component_path }
    }

    /// The reference, as it was typed.
    pub fn reference(&self) -> (reference: &str)
        ensures
            reference@ == self@.reference,
    {
        self.reference.as_str()
    }

    /// The path the component is written to.
    pub fn component_path(&self) -> (path: &str)
        ensures
            path@ == self@.component_path,
    {
        self.component_path.as_str()
    }

    /// Begins the pull: reads the reference and starts the transfer.
    pub fn handle(&self, client: &TransferClient) -> (progress: CommandProgress)
        ensures
            progress@ == pull_handle(client@, self@),
    {
        match Reference::parse(self.reference.as_str()) {
            Ok(reference) => continue_pull(client.pull(reference), self.component_path.clone()),
            Err(e) => CommandProgress::Finished(Err(e)),
        }
    }
}

impl PushCommand {
    /// A push of the component at `component_path` to `reference`.
    pub fn new(reference: String, component_path: String) -> (command: PushCommand)
        ensures
            command@.reference == reference@,
            command@.component_path == component_path@,
    {
        PushCommand { reference, component_path }
    }

    /// The reference, as it was typed.
    pub fn reference(&self) -> (reference: &str)
        ensures
            reference@ == self@.reference,
    {
        self.reference.as_str()
    }

    /// The path the component is read from.
    pub fn component_path(&self) -> (path: &str)
        ensures
            path@ == self@.component_path,
    {
        self.component_path.as_str()
    }

    /// Begins the push: asks for the component file.
    pub fn handle(&self, client: &TransferClient) -> (progress: CommandProgress)
        ensures
            progress@ == push_handle(client@, self@),
    {
        CommandProgress::Pending(
            CommandRun::ReadingInput {
                client: TransferClient::new(client.cache().clone()),
                reference: self.reference.clone(),
            },
            Request::ReadFile { path: self.component_path.clone() },
        )
    }
}

impl OciCommand {
    /// How the command begins, in a cache at `root`.
    pub open spec fn spec_handle(self, root: Seq<char>) -> CommandProgressView {
        match self {
            OciCommand::Pull(command) => pull_handle(root, command@),
            OciCommand::Push(command) => push_handle(root, command@),
        }
    }

    /// Begins the command.
    pub fn handle(&self, client: &TransferClient) -> (progress: CommandProgress)
        ensures
            progress@ == self.spec_handle(client@),
    {
        match self {
            OciCommand::Pull(command) => command.handle(client),
            OciCommand::Push(command) => command.handle(client),
        }
    }
}

impl CommandRun {
    /// Takes the host's answer to the pending request and says how the
    /// command goes on.
    pub fn advance(self, response: Response) -> (progress: CommandProgress)
        ensures
            progress@ == command_step(self@, response@),
    {
        match self {
            CommandRun::Pulling { transfer, output } => continue_pull(
                transfer.advance(response),
                output,
            ),
            CommandRun::WritingOutput { output, count } => match response {
                Response::Done => CommandProgress::Finished(Ok(pull_result(output, count))),
                _ => CommandProgress::Finished(Err(CommandError::OutputWriteFailure)),
            },
            CommandRun::ReadingInput { client, reference } => match response {
                Response::Bytes(bytes) => match Reference::parse(reference.as_str()) {
                    Ok(reference) => continue_push(client.push(reference, bytes)),
                    Err(e) => CommandProgress::Finished(Err(e)),
                },
                _ => CommandProgress::Finished(Err(CommandError::InputReadFailure)),
            },
            CommandRun::Pushing { transfer } => continue_push(transfer.advance(response)),
        }
    }
}

/// The course of a command: the world it leaves, the requests it made, and
/// how it ended, if it came to an end.
pub struct CommandCourse {
    pub world: World,
    pub requests: Seq<RequestView>,
    pub result: Option<Result<CommandOutputView, CommandError>>,
}

/// Carries a command on from `progress` for at most `steps` requests, in a
/// world that does what it is asked.
pub open spec fn run_command(world: World, progress: CommandProgressView, steps: nat) -> CommandCourse
    decreases steps,
{
    match progress {
        CommandProgressView::Finished(result) => CommandCourse {
            world,
            requests: Seq::empty(),
            result: Some(result),
        },
        CommandProgressView::Pending(run, request) => if steps == 0 {
            CommandCourse { world, requests: Seq::empty(), result: None }
        } else {
            let rest = run_command(
                world.perform(request),
                command_step(run, world.answer(request)),
                (steps - 1) as nat,
            );
            CommandCourse {
                world: rest.world,
                requests: seq![request] + rest.requests,
                result: rest.result,
            }
        },
    }
}

/// A pull goes as its transfer goes, and then writes what it got: if the
/// transfer hands out bytes, the pull makes one more request, which writes
/// them to the output path, and reports their number; if the transfer fails,
/// the pull fails in the same way and asks for nothing more.
pub proof fn lemma_pull_follows_transfer(
    world: World,
    progress: TransferProgressView,
    output: Seq<char>,
    steps: nat,
)
    ensures
        ({
            let transfer = run_transfer(world, progress, steps);
            let pull = run_command(world, pulling(progress, output), steps + 1);
            match transfer.result {
                Some(Ok(bytes)) => {
                    let write = RequestView::WriteFile { path: output, bytes };
                    &&& pull.result == Some(
                        Ok::<CommandOutputView, CommandError>(
                            pull_output(output, bytes.len() as usize),
                        ),
                    )
                    &&& pull.requests == transfer.requests.push(write)
                    &&& pull.world == transfer.world.perform(write)
                },
                Some(Err(e)) => {
                    &&& pull.result == Some(Err::<CommandOutputView, CommandError>(e))
                    &&& pull.requests == transfer.requests
                    &&& pull.world == transfer.world
                },
                None => true,
            }
        }),
    decreases steps,
{
    reveal_with_fuel(run_command, 2);
    match progress {
        TransferProgressView::Finished(Ok(bytes)) => {
            let write = RequestView::WriteFile { path: output, bytes };
            let pull = run_command(world, pulling(progress, output), steps + 1);
            assert(pull.requests =~= Seq::<RequestView>::empty().push(write));
        },
        TransferProgressView::Finished(Err(e)) => {},
        TransferProgressView::Pending(transfer, request) => {
            if steps > 0 {
                let next = transfer_step(transfer, world.answer(request));
                lemma_pull_follows_transfer(world.perform(request), next, output, (steps - 1) as nat);
                let rest = run_transfer(world.perform(request), next, (steps - 1) as nat);
                let pull_rest = run_command(world.perform(request), pulling(next, output), steps);
                let pull = run_command(world, pulling(progress, output), steps + 1);
                assert(pull.requests == seq![request] + pull_rest.requests);
                match rest.result {
                    Some(Ok(bytes)) => {
                        let write = RequestView::WriteFile { path: output, bytes };
                        assert(seq![request] + rest.requests.push(write) =~= (seq![request]
                            + rest.requests).push(write));
                    },
                    _ => {},
                }
            }
        },
    }
}

/// A pull with nothing in the cache, of a reference the registry holds, goes
/// to the registry once, writes the artifact to its output path, leaves it in
/// the cache and reports the number of bytes it wrote.
pub proof fn lemma_pull_fetches_once(world: World, root: Seq<char>, command: TransferArguments)
    requires
        is_reference(command.reference),
        world.read(cache_file(root, command.reference)) is None,
        world.registry.contains_key(command.reference),
    ensures
        ({
            let bytes = world.registry[command.reference];
            let course = run_command(world, pull_handle(root, command), transfer_bound() + 1);
            &&& course.result == Some(
                Ok::<CommandOutputView, CommandError>(
                    pull_output(command.component_path, bytes.len() as usize),
                ),
            )
            &&& remote_count(course.requests) == 1
            &&& course.world.read(command.component_path) == Some(bytes)
        }),
{
    let bytes = world.registry[command.reference];
    let start = pull_start(root, command.reference);
    lemma_pull_miss(world, root, command.reference);
    lemma_pull_follows_transfer(world, start, command.component_path, transfer_bound());
    let transfer = run_transfer(world, start, transfer_bound());
    let write = RequestView::WriteFile { path: command.component_path, bytes };
    assert(transfer.requests.push(write).drop_last() =~= transfer.requests);
    reveal_with_fuel(remote_count, 2);
}

/// A push of a file that is not there fails as an input read failure after
/// the one request that looked for the file: nothing reaches the registry and
/// nothing changes.
pub proof fn lemma_push_without_input(world: World, root: Seq<char>, command: TransferArguments)
    requires
        world.read(command.component_path) is None,
    ensures
        ({
            let course = run_command(world, push_handle(root, command), transfer_bound());
            &&& course.result == Some(
                Err::<CommandOutputView, CommandError>(CommandError::InputReadFailure),
            )
            &&& course.requests == seq![RequestView::ReadFile { path: command.component_path }]
            &&& remote_count(course.requests) == 0
            &&& course.world == world
        }),
{
    reveal_with_fuel(run_command, 3);
    reveal_with_fuel(remote_count, 2);
    let read = RequestView::ReadFile { path: command.component_path };
    let course = run_command(world, push_handle(root, command), transfer_bound());
    assert(course.requests =~= seq![read]);
    assert(course.requests.drop_last() =~= Seq::<RequestView>::empty());
}

/// A push goes as its transfer goes: it makes the same requests and leaves
/// the same world, and it ends as the transfer ends. If the transfer hands
/// out the bytes that went to the registry, the push reports their number; if
/// the transfer fails, the push fails in the same way.
pub proof fn lemma_push_follows_transfer(world: World, progress: TransferProgressView, steps: nat)
    ensures
        ({
            let transfer = run_transfer(world, progress, steps);
            let push = run_command(world, pushing(progress), steps);
            &&& push.requests == transfer.requests
            &&& push.world == transfer.world
            &&& push.result == match transfer.result {
                Some(Ok(bytes)) => Some(
                    Ok::<CommandOutputView, CommandError>(push_output(bytes.len() as usize)),
                ),
                Some(Err(e)) => Some(Err::<CommandOutputView, CommandError>(e)),
                None => None::<Result<CommandOutputView, CommandError>>,
            }
        }),
    decreases steps,
{
    match progress {
        TransferProgressView::Finished(_) => {},
        TransferProgressView::Pending(transfer, request) => {
            if steps > 0 {
                lemma_push_follows_transfer(
                    world.perform(request),
                    transfer_step(transfer, world.answer(request)),
                    (steps - 1) as nat,
                );
            }
        },
    }
}

/// A push of a file that is there, to a well-formed reference, reads the
/// file, goes to the registry once, and ends well: the registry and the cache
/// hold the bytes of the file, and the result names their number and no
/// output path.
pub proof fn lemma_push_sends_once(world: World, root: Seq<char>, command: TransferArguments)
    requires
        is_reference(command.reference),
        world.read(command.component_path) is Some,
    ensures
        ({
            let bytes = world.read(command.component_path)->0;
            let course = run_command(world, push_handle(root, command), transfer_bound() + 1);
            &&& course.result == Some(
                Ok::<CommandOutputView, CommandError>(push_output(bytes.len() as usize)),
            )
            &&& course.requests[0] == RequestView::ReadFile { path: command.component_path }
            &&& remote_count(course.requests) == 1
            &&& course.world.registry == world.registry.insert(command.reference, bytes)
            &&& course.world.read(cache_file(root, command.reference)) == Some(bytes)
        }),
{
    let bytes = world.read(command.component_path)->0;
    let read = RequestView::ReadFile { path: command.component_path };
    let start = push_start(root, command.reference, bytes);
    reveal_with_fuel(run_command, 2);
    lemma_push_follows_transfer(world, start, transfer_bound());
    lemma_push_then_pull(world, root, command.reference, bytes);
    let transfer = run_transfer(world, start, transfer_bound());
    let course = run_command(world, push_handle(root, command), transfer_bound() + 1);
    assert(course.requests == seq![read] + transfer.requests);
    crate::transfer::lemma_remote_count_concat(seq![read], transfer.requests);
    reveal_with_fuel(remote_count, 2);
    assert(seq![read].drop_last() =~= Seq::<RequestView>::empty());
    assert(remote_count(seq![read]) == 0);
}

} // verus!
