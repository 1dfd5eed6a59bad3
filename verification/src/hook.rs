//! Lifecycle points and the data plugins describe themselves with.

use vstd::prelude::*;
use crate::text::{text_of, texts_of};

verus! {

/// A point in the life of a command at which plugins may run.
#[derive(Clone, Copy, Debug, PartialEq, Eq, Structural)]
pub enum HookType {
    Unknown,
    BeforeBuild,
    AfterBuild,
    BeforePush,
    AfterPush,
    BeforeDev,
    AfterDev,
}

/// Handle through which a plugin reaches the host's environment.
///
/// The handle is opaque: the host alone knows what stands behind it.
#[derive(Clone, Copy, Debug, PartialEq, Eq, Structural)]
pub struct Runner {
    handle: u32,
}

impl Runner {
    pub closed spec fn spec_handle(self) -> u32 {
        self.handle
    }

    pub fn new(handle: u32) -> (runner: Runner)
        ensures
            runner.spec_handle() == handle,
    {
        Runner { handle }
    }

    #[verifier::when_used_as_spec(spec_handle)]
    pub fn handle(self) -> (handle: u32)
        ensures
            handle == self.spec_handle(),
    {
        self.handle
    }
}

/// One flag or positional argument that a command declares.
#[derive(Clone, Debug)]
pub struct CommandArgument {
    pub name: String,
    pub description: String,
    /// Environment variable that supplies the value when none is given.
    pub env: Option<String>,
    /// Value used when neither the command line nor the environment gives one.
    pub default: Option<String>,
    /// Value given for this invocation, if any.
    pub value: Option<String>,
}

/// What a [`CommandArgument`] holds.
pub struct CommandArgumentView {
    pub name: Seq<char>,
    pub description: Seq<char>,
    pub env: Option<Seq<char>>,
    pub default: Option<Seq<char>>,
    pub value: Option<Seq<char>>,
}

impl View for CommandArgument {
    type V = CommandArgumentView;

    open spec fn view(&self) -> CommandArgumentView {
        CommandArgumentView {
            name: self.name@,
            description: self.description@,
            env: text_of(self.env),
            default: text_of(self.default),
            value: text_of(self.value),
        }
    }
}

/// A command as a plugin declares it, or as one invocation carries it.
#[derive(Clone, Debug)]
pub struct Command {
    pub id: String,
    pub name: String,
    pub description: String,
    /// Flags by name, in declaration order.
    pub flags: Vec<(String, CommandArgument)>,
    /// Positional arguments, in order.
    pub arguments: Vec<CommandArgument>,
    /// Free-form usage text, one entry per line.
    pub usage: Vec<String>,
}

/// What a [`Command`] holds.
pub struct CommandView {
    pub id: Seq<char>,
    pub name: Seq<char>,
    pub description: Seq<char>,
    pub flags: Seq<(Seq<char>, CommandArgumentView)>,
    pub arguments: Seq<CommandArgumentView>,
    pub usage: Seq<Seq<char>>,
}

impl View for Command {
    type V = CommandView;

    open spec fn view(&self) -> CommandView {
        CommandView {
            id: self.id@,
            name: self.name@,
            description: self.description@,
            flags: Seq::new(self.flags@.len(), |i: int| (self.flags@[i].0@, self.flags@[i].1@)),
            arguments: Seq::new(self.arguments@.len(), |i: int| self.arguments@[i]@),
            usage: texts_of(self.usage@),
        }
    }
}

/// How a plugin describes itself when it is installed.
#[derive(Clone, Debug)]
pub struct Metadata {
    pub id: String,
    pub name: String,
    pub description: String,
    pub contact: String,
    pub url: String,
    pub license: String,
    pub version: String,
    /// Sub-commands nested below the plugin's own command.
    pub sub_commands: Vec<Command>,
    /// The command the plugin contributes, if it contributes one.
    pub command: Option<Command>,
    /// The lifecycle points the plugin wants to be called at.
    pub hooks: Vec<HookType>,
}

/// What a [`Metadata`] holds.
pub struct MetadataView {
    pub id: Seq<char>,
    pub name: Seq<char>,
    pub description: Seq<char>,
    pub contact: Seq<char>,
    pub url: Seq<char>,
    pub license: Seq<char>,
    pub version: Seq<char>,
    pub sub_commands: Seq<CommandView>,
    pub command: Option<CommandView>,
    pub hooks: Seq<HookType>,
}

impl View for Metadata {
    type V = MetadataView;

    open spec fn view(&self) -> MetadataView {
        MetadataView {
            id: self.id@,
            name: self.name@,
            description: self.description@,
            contact: self.contact@,
            url: self.url@,
            license: self.license@,
            version: self.version@,
            sub_commands: Seq::new(self.sub_commands@.len(), |i: int| self.sub_commands@[i]@),
            command: match self.command {
                Some(command) => Some(command@),
                None => None,
            },
            hooks: self.hooks@,
        }
    }
}

/// The interface every plugin offers to the host.
///
/// A hook answers with a status line on success and with an error line on
/// failure. What a plugin does inside is its own business.
pub trait Plugin {
    /// What the plugin says of itself.
    spec fn metadata() -> MetadataView;

    /// Describes the plugin. Asked once, when the plugin is installed.
    fn info() -> (metadata: Metadata)
        ensures
            metadata@ == Self::metadata(),
    ;

    /// Runs the plugin at the lifecycle point `ty`.
    fn hook(runner: Runner, ty: HookType) -> Result<String, String>;

    /// Runs the command the plugin contributes.
    fn run(runner: Runner, command: Command) -> Result<String, String>;

    /// Prepares the plugin for use.
    fn initialize(runner: Runner) -> Result<String, String>;
}

} // verus!
