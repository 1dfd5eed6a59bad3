//! The plugin that writes deployment manifests after a development loop.

use vstd::prelude::*;
use crate::hook::{
    Command, CommandArgument, CommandArgumentView, CommandView, HookType, Metadata, MetadataView,
    Plugin, Runner,
};

verus! {

/// Version the plugin reports about itself.
pub const PLUGIN_VERSION: &'static str = "0.1.0";

/// Status line of a manifest run.
pub const GENERATING: &'static str = "generating wadm manifests...";

/// Error line for a lifecycle point the plugin does not serve.
pub const UNSUPPORTED_HOOK: &'static str = "unsupported hook type";

/// The manifest plugin.
pub struct Component;

/// A flag that takes its value from the command line or from `default`.
pub open spec fn plain_argument(
    name: Seq<char>,
    description: Seq<char>,
    default: Option<Seq<char>>,
) -> CommandArgumentView {
    CommandArgumentView { name, description, env: None, default, value: None }
}

/// The command the plugin contributes.
pub open spec fn wadm_command() -> CommandView {
    CommandView {
        id: "wadm"@,
        name: "wadm"@,
        description: "Generates a wadm manifest for a component or component project"@,
        flags: seq![
            (
                "generate"@,
                plain_argument(
                    "generate"@,
                    "Generate a wadm manifest for the given component or project"@,
                    Some("true"@),
                ),
            ),
            (
                "dry-run"@,
                plain_argument(
                    "dry-run"@,
                    "Print the manifest to stdout instead of writing to disk"@,
                    Some("false"@),
                ),
            ),
        ],
        arguments: seq![
            plain_argument("project-path"@, "Path to the component project directory"@, None),
        ],
        usage: seq!["Make sure to drink your Ovaltine!"@],
    }
}

/// What the plugin says of itself.
pub open spec fn wadm_metadata() -> MetadataView {
    MetadataView {
        id: "dev.wasmcloud.wadm"@,
        name: "wadm"@,
        description: "Generates a wadm manifest after a dev loop, or when pointing to a Wasm component project"@,
        contact: "wasmCloud Team"@,
        url: "https://github.com/wasmcloud/wash"@,
        license: "Apache-2.0"@,
        version: PLUGIN_VERSION@,
        sub_commands: Seq::empty(),
        command: Some(wadm_command()),
        hooks: seq![HookType::AfterDev],
    }
}

fn argument(name: &str, description: &str, default: Option<&str>) -> (a: CommandArgument)
    ensures
        a@ == plain_argument(
            name@,
            description@,
            match default {
                Some(d) => Some(d@),
                None => None,
            },
        ),
{
    CommandArgument {
        name: name.to_owned(),
        description: description.to_owned(),
        env: None,
        default: match default {
            Some(d) => Some(d.to_owned()),
            None => None,
        },
        value: None,
    }
}

impl Plugin for Component {
    open spec fn metadata() -> MetadataView {
        wadm_metadata()
    }

    fn info() -> (metadata: Metadata) {
        let generate = argument(
            "generate",
            "Generate a wadm manifest for the given component or project",
            Some("true"),
        );
        let dry_run = argument(
            "dry-run",
            "Print the manifest to stdout instead of writing to disk",
            Some("false"),
        );
        let project_path = argument(
            "project-path",
            "Path to the component project directory",
            None,
        );
        let mut flags: Vec<(String, CommandArgument)> = Vec::new();
        flags.push(("generate".to_owned(), generate));
        flags.push(("dry-run".to_owned(), dry_run));
        let mut arguments: Vec<CommandArgument> = Vec::new();
        arguments.push(project_path);
        let mut usage: Vec<String> = Vec::new();
        usage.push("Make sure to drink your Ovaltine!".to_owned());
        let command = Command {
            id: "wadm".to_owned(),
            name: "wadm".to_owned(),
            description: "Generates a wadm manifest for a component or component project".to_owned(),
            flags,
            arguments,
            usage,
        };
        assert(command@.flags =~= wadm_command().flags);
        assert(command@.arguments =~= wadm_command().arguments);
        assert(command@.usage =~= wadm_command().usage);
        let mut hooks: Vec<HookType> = Vec::new();
        hooks.push(HookType::AfterDev);
        let metadata = Metadata {
            id: "dev.wasmcloud.wadm".to_owned(),
            name: "wadm".to_owned(),
            description: "Generates a wadm manifest after a dev loop, or when pointing to a Wasm component project".to_owned(),
            contact: "wasmCloud Team".to_owned(),
            url: "https://github.com/wasmcloud/wash".to_owned(),
            license: "Apache-2.0".to_owned(),
            version: PLUGIN_VERSION.to_owned(),
            sub_commands: Vec::new(),
            command: Some(command),
            hooks,
        };
        assert(metadata@.sub_commands =~= wadm_metadata().sub_commands);
        assert(metadata@.hooks =~= wadm_metadata().hooks);
        metadata
    }

    fn hook(runner: Runner, ty: HookType) -> (outcome: Result<String, String>)
        ensures
            ty == HookType::AfterDev ==> (outcome matches Ok(line) && line@ == GENERATING@),
            ty != HookType::AfterDev ==> (outcome matches Err(line) && line@ == UNSUPPORTED_HOOK@),
    {
        match ty {
            HookType::AfterDev => Ok(GENERATING.to_owned()),
            _ => Err(UNSUPPORTED_HOOK.to_owned()),
        }
    }

    fn run(runner: Runner, command: Command) -> (outcome: Result<String, String>)
        ensures
            outcome matches Ok(line) && line@ == GENERATING@,
    {
        Ok(GENERATING.to_owned())
    }

    fn initialize(runner: Runner) -> (outcome: Result<String, String>)
        ensures
            outcome matches Ok(line) && line@ == Seq::<char>::empty(),
    {
        Ok(String::new())
    }
}

} // verus!
