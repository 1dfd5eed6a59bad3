use wash::command::{CommandOutput, OciCommand, PullCommand, PushCommand};
use wash::dispatch::{Action, Dispatcher, HookReport, Phase};
use wash::error::CommandError;
use wash::hook::{HookType, Metadata};
use wash::registry::HookRegistry;

fn plugin(id: &str, hooks: Vec<HookType>) -> Metadata {
    Metadata {
        id: id.to_string(),
        name: id.to_string(),
        description: String::new(),
        contact: String::new(),
        url: String::new(),
        license: String::new(),
        version: "1.0.0".to_string(),
        sub_commands: vec![],
        command: None,
        hooks,
    }
}

fn push_command() -> OciCommand {
    OciCommand::Push(PushCommand::new("registry.example/ns/comp:1.0".to_string(), "out.wasm".to_string()))
}

fn pull_command() -> OciCommand {
    OciCommand::Pull(PullCommand::new("registry.example/ns/comp:1.0".to_string(), None))
}

fn registry() -> HookRegistry {
    let mut registry = HookRegistry::new();
    assert!(registry.register(&plugin("first", vec![HookType::BeforePush])));
    assert!(registry.register(&plugin("dev", vec![HookType::AfterDev])));
    assert!(registry.register(&plugin("second", vec![HookType::BeforePush, HookType::AfterPush])));
    assert!(registry.register(&plugin("third", vec![HookType::AfterPush])));
    registry
}

fn done() -> Result<CommandOutput, CommandError> {
    Ok(CommandOutput::ok("done".to_string(), None))
}

#[test]
fn a_dispatcher_begins_idle() {
    let dispatcher = Dispatcher::new(&registry(), &push_command());
    assert_eq!(dispatcher.phase(), Phase::Idle);
    assert_eq!(dispatcher.pending(), Action::Start);
    assert!(dispatcher.finish().is_none());
}

#[test]
fn pre_hooks_run_in_registration_order_before_the_command() {
    let dispatcher = Dispatcher::new(&registry(), &push_command()).start();
    assert_eq!(dispatcher.phase(), Phase::PreHook);
    assert_eq!(dispatcher.pending(), Action::InvokeHook { plugin: 0, hook: HookType::BeforePush });
    let dispatcher = dispatcher.hook_returned(Ok("fine".to_string()));
    assert_eq!(dispatcher.phase(), Phase::PreHook);
    assert_eq!(dispatcher.pending(), Action::InvokeHook { plugin: 2, hook: HookType::BeforePush });
    let dispatcher = dispatcher.hook_returned(Ok("fine".to_string()));
    assert_eq!(dispatcher.phase(), Phase::Executing);
    assert_eq!(dispatcher.pending(), Action::Execute);
}

#[test]
fn the_command_runs_even_if_a_pre_hook_fails() {
    let dispatcher = Dispatcher::new(&registry(), &push_command()).start();
    let dispatcher = dispatcher.hook_returned(Err("first broke".to_string()));
    assert_eq!(dispatcher.pending(), Action::InvokeHook { plugin: 2, hook: HookType::BeforePush });
    let dispatcher = dispatcher.hook_returned(Err("second broke".to_string()));
    assert_eq!(dispatcher.phase(), Phase::Executing);
    assert_eq!(dispatcher.pending(), Action::Execute);
}

#[test]
fn post_hooks_run_after_a_failed_command() {
    let dispatcher = Dispatcher::new(&registry(), &push_command()).start();
    let dispatcher = dispatcher.hook_returned(Ok(String::new()));
    let dispatcher = dispatcher.hook_returned(Ok(String::new()));
    let dispatcher = dispatcher.executed(Err(CommandError::InputReadFailure));
    assert_eq!(dispatcher.phase(), Phase::PostHook);
    assert_eq!(dispatcher.pending(), Action::InvokeHook { plugin: 2, hook: HookType::AfterPush });
    let dispatcher = dispatcher.hook_returned(Ok(String::new()));
    assert_eq!(dispatcher.pending(), Action::InvokeHook { plugin: 3, hook: HookType::AfterPush });
    let dispatcher = dispatcher.hook_returned(Ok(String::new()));
    assert_eq!(dispatcher.phase(), Phase::Failed);
    assert_eq!(dispatcher.pending(), Action::Return);
    let outcome = dispatcher.finish().expect("an outcome");
    assert_eq!(outcome.result, Err(CommandError::InputReadFailure));
}

#[test]
fn the_outcome_is_the_commands_own_result() {
    let dispatcher = Dispatcher::new(&registry(), &push_command()).start();
    let dispatcher = dispatcher.hook_returned(Err("first broke".to_string()));
    let dispatcher = dispatcher.hook_returned(Ok("second fine".to_string()));
    let dispatcher = dispatcher.executed(done());
    let dispatcher = dispatcher.hook_returned(Err("second broke".to_string()));
    let dispatcher = dispatcher.hook_returned(Err("third broke".to_string()));
    assert_eq!(dispatcher.phase(), Phase::Done);
    let outcome = dispatcher.finish().expect("an outcome");
    assert_eq!(outcome.result, done());
    assert_eq!(
        outcome.diagnostics,
        vec![
            HookReport { plugin: 0, hook: HookType::BeforePush, outcome: Err("first broke".to_string()) },
            HookReport { plugin: 2, hook: HookType::BeforePush, outcome: Ok("second fine".to_string()) },
            HookReport { plugin: 2, hook: HookType::AfterPush, outcome: Err("second broke".to_string()) },
            HookReport { plugin: 3, hook: HookType::AfterPush, outcome: Err("third broke".to_string()) },
        ]
    );
}

#[test]
fn a_command_without_hooks_runs_at_once() {
    let dispatcher = Dispatcher::new(&registry(), &pull_command()).start();
    assert_eq!(dispatcher.phase(), Phase::Executing);
    assert_eq!(dispatcher.pending(), Action::Execute);
    let dispatcher = dispatcher.executed(done());
    assert_eq!(dispatcher.phase(), Phase::Done);
    assert_eq!(dispatcher.pending(), Action::Return);
    let outcome = dispatcher.finish().expect("an outcome");
    assert_eq!(outcome.result, done());
    assert!(outcome.diagnostics.is_empty());
}

#[test]
fn a_command_without_subscribers_runs_at_once() {
    let dispatcher = Dispatcher::new(&HookRegistry::new(), &push_command()).start();
    assert_eq!(dispatcher.pending(), Action::Execute);
    let dispatcher = dispatcher.executed(Err(CommandError::AuthRejected));
    assert_eq!(dispatcher.phase(), Phase::Failed);
    assert_eq!(dispatcher.finish().expect("an outcome").result, Err(CommandError::AuthRejected));
}

#[test]
fn what_was_not_asked_for_changes_nothing() {
    let dispatcher = Dispatcher::new(&registry(), &push_command());
    let dispatcher = dispatcher.hook_returned(Ok(String::new()));
    assert_eq!(dispatcher.phase(), Phase::Idle);
    let dispatcher = dispatcher.executed(done());
    assert_eq!(dispatcher.phase(), Phase::Idle);

    let dispatcher = dispatcher.start();
    let dispatcher = dispatcher.executed(done());
    assert_eq!(dispatcher.phase(), Phase::PreHook);
    assert_eq!(dispatcher.pending(), Action::InvokeHook { plugin: 0, hook: HookType::BeforePush });
    let dispatcher = dispatcher.start();
    assert_eq!(dispatcher.pending(), Action::InvokeHook { plugin: 0, hook: HookType::BeforePush });

    let dispatcher = dispatcher.hook_returned(Ok(String::new()));
    let dispatcher = dispatcher.hook_returned(Ok(String::new()));
    let dispatcher = dispatcher.hook_returned(Ok(String::new()));
    assert_eq!(dispatcher.phase(), Phase::Executing);
    assert!(dispatcher.finish().is_none());
}

#[test]
fn a_finished_dispatcher_stays_finished() {
    let dispatcher = Dispatcher::new(&HookRegistry::new(), &pull_command()).start();
    let dispatcher = dispatcher.executed(done());
    let dispatcher = dispatcher.executed(Err(CommandError::AuthRejected));
    let dispatcher = dispatcher.hook_returned(Err("late".to_string()));
    let dispatcher = dispatcher.start();
    assert_eq!(dispatcher.phase(), Phase::Done);
    let outcome = dispatcher.finish().expect("an outcome");
    assert_eq!(outcome.result, done());
    assert!(outcome.diagnostics.is_empty());
}

#[test]
fn the_command_is_asked_for_once() {
    let mut dispatcher = Dispatcher::new(&registry(), &push_command()).start();
    let mut executions = 0;
    let mut calls: Vec<(usize, HookType)> = Vec::new();
    loop {
        match dispatcher.pending() {
            Action::Start => dispatcher = dispatcher.start(),
            Action::InvokeHook { plugin, hook } => {
                calls.push((plugin, hook));
                dispatcher = dispatcher.hook_returned(Err("no".to_string()));
            }
            Action::Execute => {
                executions += 1;
                dispatcher = dispatcher.executed(Err(CommandError::RegistryUnreachable));
            }
            Action::Return => break,
        }
    }
    assert_eq!(executions, 1);
    assert_eq!(
        calls,
        vec![
            (0, HookType::BeforePush),
            (2, HookType::BeforePush),
            (2, HookType::AfterPush),
            (3, HookType::AfterPush),
        ]
    );
}

#[test]
fn register_keeps_the_order_and_refuses_a_second_identity() {
    let mut registry = HookRegistry::new();
    assert_eq!(registry.len(), 0);
    assert!(registry.register(&plugin("a", vec![HookType::AfterDev])));
    assert!(registry.register(&plugin("b", vec![HookType::AfterDev, HookType::BeforePush])));
    assert!(!registry.register(&plugin("a", vec![HookType::BeforePush])));
    assert_eq!(registry.len(), 2);
    assert_eq!(registry.position("a"), Some(0));
    assert_eq!(registry.position("b"), Some(1));
    assert_eq!(registry.position("c"), None);
    assert_eq!(registry.id_of(0), Some("a".to_string()));
    assert_eq!(registry.id_of(1), Some("b".to_string()));
    assert_eq!(registry.id_of(2), None);
    assert_eq!(registry.subscribers(HookType::BeforePush), vec![1]);
}

#[test]
fn subscribers_stand_in_registration_order() {
    let registry = registry();
    assert_eq!(registry.subscribers(HookType::BeforePush), vec![0, 2]);
    assert_eq!(registry.subscribers(HookType::AfterPush), vec![2, 3]);
    assert_eq!(registry.subscribers(HookType::AfterDev), vec![1]);
    assert_eq!(registry.subscribers(HookType::BeforeDev), Vec::<usize>::new());
    assert_eq!(registry.called_for(Some(HookType::BeforePush)), vec![0, 2]);
    assert_eq!(registry.called_for(None), Vec::<usize>::new());
}

#[test]
fn failed_hooks_become_warnings() {
    let dispatcher = Dispatcher::new(&registry(), &push_command()).start();
    let dispatcher = dispatcher.hook_returned(Err("first broke".to_string()));
    let dispatcher = dispatcher.hook_returned(Ok("second fine".to_string()));
    let dispatcher = dispatcher.executed(done());
    let dispatcher = dispatcher.hook_returned(Ok("second fine".to_string()));
    let dispatcher = dispatcher.hook_returned(Err("third broke".to_string()));
    let outcome = dispatcher.finish().expect("an outcome");
    assert_eq!(
        outcome.warnings(),
        vec!["plugin hook failed: first broke".to_string(), "plugin hook failed: third broke".to_string()]
    );
    assert_eq!(outcome.diagnostics[0].warning(), Some("plugin hook failed: first broke".to_string()));
    assert_eq!(outcome.diagnostics[1].warning(), None);
    assert_eq!(outcome.result, done());
}

#[test]
fn a_plugin_that_names_a_hook_twice_is_called_once() {
    let mut registry = HookRegistry::new();
    registry.register(&plugin("twice", vec![HookType::AfterPush, HookType::AfterPush]));
    assert_eq!(registry.subscribers(HookType::AfterPush), vec![0]);
}
