//! The command dispatcher: runs a command between the hooks it declares.
//!
//! One dispatcher serves one execution of one command. It goes from `Idle`
//! through `PreHook`, `Executing` and `PostHook` to `Done` or `Failed`, and at
//! every point it names the one thing the host is to do next: call a plugin,
//! run the command, or take the outcome. Hooks are observers. What a plugin
//! answers is written down and changes nothing else: the command runs after
//! its pre-hooks whatever they said, the post-hooks run after the command
//! whatever it returned, and the outcome carries the command's own result.

use vstd::prelude::*;
use vstd::string::StringExecFns;
use crate::command::{outcome_of, CommandOutput, CommandOutputView, OciCommand};
use crate::error::CommandError;
use crate::hook::HookType;
use crate::registry::{called_for, HookRegistry, RegistrationView};
use crate::text::{text_of, texts_of};

verus! {

/// What every command tells the dispatcher about itself.
pub trait CliCommand {
    /// The lifecycle point before the command, if it declares one.
    spec fn pre_hook(&self) -> Option<HookType>;

    /// The lifecycle point after the command, if it declares one.
    spec fn post_hook(&self) -> Option<HookType>;

    fn enable_pre_hook(&self) -> (hook: Option<HookType>)
        ensures
            hook == self.pre_hook(),
    ;

    /// A command never declares one lifecycle point twice: what it declares
    /// after itself is not what it declares before itself.
    fn enable_post_hook(&self) -> (hook: Option<HookType>)
        ensures
            hook == self.post_hook(),
            self.pre_hook() is None || self.pre_hook() != hook,
    ;
}

impl CliCommand for OciCommand {
    /// A push declares `BeforePush`; a pull declares nothing.
    open spec fn pre_hook(&self) -> Option<HookType> {
        match self {
            OciCommand::Pull(_) => None,
            OciCommand::Push(_) => Some(HookType::BeforePush),
        }
    }

    /// A push declares `AfterPush`; a pull declares nothing.
    open spec fn post_hook(&self) -> Option<HookType> {
        match self {
            OciCommand::Pull(_) => None,
            OciCommand::Push(_) => Some(HookType::AfterPush),
        }
    }

    fn enable_pre_hook(&self) -> (hook: Option<HookType>) {
        match self {
            OciCommand::Pull(_) => None,
            OciCommand::Push(_) => Some(HookType::BeforePush),
        }
    }

    fn enable_post_hook(&self) -> (hook: Option<HookType>) {
        match self {
            OciCommand::Pull(_) => None,
            OciCommand::Push(_) => Some(HookType::AfterPush),
        }
    }
}

/// Where the execution of a command stands.
#[derive(Clone, Copy, Debug, PartialEq, Eq, Structural)]
pub enum Phase {
    /// Nothing has happened yet.
    Idle,
    /// The plugins that asked for the command's pre-hook are being called.
    PreHook,
    /// The command itself is to run.
    Executing,
    /// The plugins that asked for the command's post-hook are being called.
    PostHook,
    /// Everything has run and the command went well.
    Done,
    /// Everything has run and the command failed.
    Failed,
}

/// The one thing the host is to do next.
#[derive(Clone, Copy, Debug, PartialEq, Eq, Structural)]
pub enum Action {
    /// Start the dispatcher.
    Start,
    /// Call the plugin at place `plugin` for `hook` and report what it said.
    InvokeHook { plugin: usize, hook: HookType },
    /// Run the command and report what it returned.
    Execute,
    /// Take the outcome: nothing is left to do.
    Return,
}

/// What a plugin answered when it was called for a hook.
#[derive(Debug, PartialEq, Eq)]
pub struct HookReport {
    pub plugin: usize,
    pub hook: HookType,
    pub outcome: Result<String, String>,
}

/// What a [`HookReport`] holds.
pub struct HookReportView {
    pub plugin: usize,
    pub hook: HookType,
    pub outcome: Result<Seq<char>, Seq<char>>,
}

/// The line a plugin answered with, as a status or as an error.
pub open spec fn line_of(outcome: Result<String, String>) -> Result<Seq<char>, Seq<char>> {
    match outcome {
        Ok(line) => Ok(line@),
        Err(line) => Err(line@),
    }
}

impl View for HookReport {
    type V = HookReportView;

    open spec fn view(&self) -> HookReportView {
        HookReportView { plugin: self.plugin, hook: self.hook, outcome: line_of(self.outcome) }
    }
}

/// The state of a dispatcher.
pub struct DispatcherView {
    pub phase: Phase,
    /// The place in the list of plugins that the current phase is calling.
    pub cursor: nat,
    pub pre_hook: Option<HookType>,
    pub post_hook: Option<HookType>,
    /// The plugins to call before the command, in order.
    pub before: Seq<usize>,
    /// The plugins to call after the command, in order.
    pub after: Seq<usize>,
    /// What the command returned, once it has run.
    pub result: Option<Result<CommandOutputView, CommandError>>,
    /// What the plugins answered, in the order in which they were called.
    pub reports: Seq<HookReportView>,
}

/// The phase that follows the last hook: by the command's own result.
pub open spec fn closing_phase(result: Result<CommandOutputView, CommandError>) -> Phase {
    match result {
        Ok(_) => Phase::Done,
        Err(_) => Phase::Failed,
    }
}

impl DispatcherView {
    /// A dispatcher that has not started, for a command that declares
    /// `pre_hook` and `post_hook`, with `plugins` installed.
    pub open spec fn idle(
        plugins: Seq<RegistrationView>,
        pre_hook: Option<HookType>,
        post_hook: Option<HookType>,
    ) -> DispatcherView {
        DispatcherView {
            phase: Phase::Idle,
            cursor: 0,
            pre_hook,
            post_hook,
            before: called_for(plugins, pre_hook),
            after: called_for(plugins, post_hook),
            result: None,
            reports: Seq::empty(),
        }
    }

    /// The number of hook calls that are over when the dispatcher is where it is.
    pub open spec fn calls_made(self) -> nat {
        match self.phase {
            Phase::Idle => 0,
            Phase::PreHook => self.cursor,
            Phase::Executing => self.before.len(),
            Phase::PostHook => self.before.len() + self.cursor,
            Phase::Done | Phase::Failed => self.before.len() + self.after.len(),
        }
    }

    /// The report that the `k`-th hook call leaves, if the plugin answers
    /// `outcome`.
    pub open spec fn report_of(self, k: int, outcome: Result<Seq<char>, Seq<char>>) -> HookReportView {
        if k < self.before.len() {
            HookReportView { plugin: self.before[k], hook: self.pre_hook->0, outcome }
        } else {
            HookReportView {
                plugin: self.after[k - self.before.len()],
                hook: self.post_hook->0,
                outcome,
            }
        }
    }

    /// What holds of a dispatcher at every moment.
    pub open spec fn wf(self) -> bool {
        &&& self.pre_hook is None || self.pre_hook != self.post_hook
        &&& self.pre_hook is None ==> self.before.len() == 0
        &&& self.post_hook is None ==> self.after.len() == 0
        &&& self.phase == Phase::PreHook ==> self.cursor < self.before.len()
        &&& self.phase == Phase::PostHook ==> self.cursor < self.after.len()
        &&& self.phase != Phase::PreHook && self.phase != Phase::PostHook ==> self.cursor == 0
        &&& (self.result is Some) == (self.phase == Phase::PostHook || self.phase == Phase::Done
            || self.phase == Phase::Failed)
        &&& self.phase == Phase::Done ==> self.result->0 is Ok
        &&& self.phase == Phase::Failed ==> self.result->0 is Err
        &&& self.reports.len() == self.calls_made()
        &&& forall|k: int|
            0 <= k < self.reports.len() ==> (#[trigger] self.reports[k]) == self.report_of(
                k,
                self.reports[k].outcome,
            )
    }

    /// The one thing the host is to do next.
    pub open spec fn pending(self) -> Action {
        match self.phase {
            Phase::Idle => Action::Start,
            Phase::PreHook => Action::InvokeHook {
                plugin: self.before[self.cursor as int],
                hook: self.pre_hook->0,
            },
            Phase::Executing => Action::Execute,
            Phase::PostHook => Action::InvokeHook {
                plugin: self.after[self.cursor as int],
                hook: self.post_hook->0,
            },
            Phase::Done | Phase::Failed => Action::Return,
        }
    }

    /// The dispatcher after it was started. Only an idle dispatcher starts.
    pub open spec fn started(self) -> DispatcherView {
        if self.phase != Phase::Idle {
            self
        } else if self.before.len() > 0 {
            DispatcherView { phase: Phase::PreHook, cursor: 0, ..self }
        } else {
            DispatcherView { phase: Phase::Executing, cursor: 0, ..self }
        }
    }

    /// The dispatcher after the plugin it asked for has answered `outcome`:
    /// the answer is written down and the next plugin, or the next phase,
    /// follows. The answer itself decides nothing. Where no plugin was asked
    /// for, nothing changes.
    pub open spec fn after_hook(self, outcome: Result<Seq<char>, Seq<char>>) -> DispatcherView {
        match self.phase {
            Phase::PreHook => {
                let reports = self.reports.push(self.report_of(self.reports.len() as int, outcome));
                if self.cursor + 1 < self.before.len() {
                    DispatcherView { cursor: self.cursor + 1, reports, ..self }
                } else {
                    DispatcherView { phase: Phase::Executing, cursor: 0, reports, ..self }
                }
            },
            Phase::PostHook => {
                let reports = self.reports.push(self.report_of(self.reports.len() as int, outcome));
                if self.cursor + 1 < self.after.len() {
                    DispatcherView { cursor: self.cursor + 1, reports, ..self }
                } else {
                    DispatcherView {
                        phase: closing_phase(self.result->0),
                        cursor: 0,
                        reports,
                        ..self
                    }
                }
            },
            _ => self,
        }
    }

    /// The dispatcher after the command has returned `result`: the result is
    /// kept, and the post-hooks follow whether the command went well or not.
    /// Where the command was not asked for, nothing changes.
    pub open spec fn after_command(self, result: Result<CommandOutputView, CommandError>) -> DispatcherView {
        if self.phase != Phase::Executing {
            self
        } else if self.after.len() > 0 {
            DispatcherView { phase: Phase::PostHook, cursor: 0, result: Some(result), ..self }
        } else {
            DispatcherView { phase: closing_phase(result), cursor: 0, result: Some(result), ..self }
        }
    }
}

/// The dispatcher for one execution of one command.
#[derive(Debug)]
pub struct Dispatcher {
    phase: Phase,
    cursor: usize,
    pre_hook: Option<HookType>,
    post_hook: Option<HookType>,
    before: Vec<usize>,
    after: Vec<usize>,
    result: Option<Result<CommandOutput, CommandError>>,
    reports: Vec<HookReport>,
}

/// What a sequence of reports holds.
pub open spec fn reports_of(reports: Seq<HookReport>) -> Seq<HookReportView> {
    Seq::new(reports.len(), |k: int| reports[k]@)
}

impl View for Dispatcher {
    type V = DispatcherView;

    closed spec fn view(&self) -> DispatcherView {
        DispatcherView {
            phase: self.phase,
            cursor: self.cursor as nat,
            pre_hook: self.pre_hook,
            post_hook: self.post_hook,
            before: self.before@,
            after: self.after@,
            result: match self.result {
                Some(result) => Some(outcome_of(result)),
                None => None,
            },
            reports: reports_of(self.reports@),
        }
    }
}

/// What the dispatcher hands back at the end: the command's own result, and
/// beside it what the plugins answered.
#[derive(Debug)]
pub struct DispatchOutcome {
    pub result: Result<CommandOutput, CommandError>,
    pub diagnostics: Vec<HookReport>,
}

/// The warning that a report gives rise to: none if the plugin went well, and
/// otherwise the message of a hook failure, `": "`, and the line the plugin
/// answered with.
pub open spec fn warning_of(report: HookReportView) -> Option<Seq<char>> {
    match report.outcome {
        Ok(_) => None,
        Err(line) => Some(
            CommandError::PluginHookFailure.spec_message() + seq![':', ' '] + line,
        ),
    }
}

/// The warnings that `reports` give rise to, in the order of the reports.
pub open spec fn warnings_of(reports: Seq<HookReportView>) -> Seq<Seq<char>>
    decreases reports.len(),
{
    if reports.len() == 0 {
        Seq::empty()
    } else {
        let before = warnings_of(reports.drop_last());
        match warning_of(reports.last()) {
            Some(warning) => before.push(warning),
            None => before,
        }
    }
}

impl HookReport {
    /// The warning to show for this report, if the plugin failed.
    pub fn warning(&self) -> (warning: Option<String>)
        ensures
            text_of(warning) == warning_of(self@),
    {
        match &self.outcome {
            Ok(_) => None,
            Err(line) => {
                let mut warning = CommandError::PluginHookFailure.message();
                warning.append(": ");
                warning.append(line.as_str());
                proof {
                    reveal_strlit(": ");
                    assert(": "@ =~= seq![':', ' ']);
                }
                Some(warning)
            },
        }
    }
}

impl DispatchOutcome {
    /// The warnings to show beside the command's result: one for every
    /// plugin that failed, in the order in which the plugins were called.
    pub fn warnings(&self) -> (lines: Vec<String>)
        ensures
            texts_of(lines@) == warnings_of(reports_of(self.diagnostics@)),
    {
        let mut lines: Vec<String> = Vec::new();
        let mut k: usize = 0;
        let ghost reports = reports_of(self.diagnostics@);
        while k < self.diagnostics.len()
            invariant
                k <= self.diagnostics@.len(),
                reports == reports_of(self.diagnostics@),
                texts_of(lines@) == warnings_of(reports.take(k as int)),
            decreases self.diagnostics@.len() - k,
        {
            let ghost before = texts_of(lines@);
            let warning = self.diagnostics[k].warning();
            proof {
                assert(reports.take(k + 1).drop_last() =~= reports.take(k as int));
                assert(reports.take(k + 1).last() == self.diagnostics@[k as int]@);
            }
            match warning {
                Some(line) => {
                    lines.push(line);
                    assert(texts_of(lines@) =~= before.push(line@));
                },
                None => {},
            }
            k = k + 1;
        }
        assert(reports.take(k as int) =~= reports);
        lines
    }
}

impl Dispatcher {
    #[verifier::type_invariant]
    closed spec fn inv(&self) -> bool {
        self@.wf()
    }

    /// A dispatcher for `command`, with the plugins of `registry`.
    pub fn new<C: CliCommand>(registry: &HookRegistry, command: &C) -> (dispatcher: Dispatcher)
        ensures
            dispatcher@ == DispatcherView::idle(registry@, command.pre_hook(), command.post_hook()),
            dispatcher@.wf(),
    {
        let pre_hook = command.enable_pre_hook();
        let post_hook = command.enable_post_hook();
        let before = registry.called_for(pre_hook);
        let after = registry.called_for(post_hook);
        let reports: Vec<HookReport> = Vec::new();
        assert(reports_of(reports@) =~= Seq::<HookReportView>::empty());
        Dispatcher {
            phase: Phase::Idle,
            cursor: 0,
            pre_hook,
            post_hook,
            before,
            after,
            result: None,
            reports,
        }
    }

    /// Where the execution stands.
    pub fn phase(&self) -> (phase: Phase)
        ensures
            phase == self@.phase,
            self@.wf(),
    {
        proof {
            use_type_invariant(self);
        }
        self.phase
    }

    /// The one thing the host is to do next.
    pub fn pending(&self) -> (action: Action)
        ensures
            action == self@.pending(),
            self@.wf(),
    {
        proof {
            use_type_invariant(self);
        }
        match self.phase {
            Phase::Idle => Action::Start,
            Phase::PreHook => match self.pre_hook {
                Some(hook) => Action::InvokeHook { plugin: self.before[self.cursor], hook },
                None => Action::Return,
            },
            Phase::Executing => Action::Execute,
            Phase::PostHook => match self.post_hook {
                Some(hook) => Action::InvokeHook { plugin: self.after[self.cursor], hook },
                None => Action::Return,
            },
            Phase::Done => Action::Return,
            Phase::Failed => Action::Return,
        }
    }

    /// Starts the dispatcher.
    pub fn start(self) -> (next: Dispatcher)
        ensures
            next@ == self@.started(),
            next@.wf(),
    {
        proof {
            use_type_invariant(&self);
        }
        match self.phase {
            Phase::Idle => {
                let phase = if self.before.len() > 0 {
                    Phase::PreHook
                } else {
                    Phase::Executing
                };
                Dispatcher {
                    phase,
                    cursor: 0,
                    pre_hook: self.pre_hook,
                    post_hook: self.post_hook,
                    before: self.before,
                    after: self.after,
                    result: self.result,
                    reports: self.reports,
                }
            },
            _ => self,
        }
    }

    /// Takes what the plugin that was asked for has answered.
    pub fn hook_returned(self, outcome: Result<String, String>) -> (next: Dispatcher)
        ensures
            next@ == self@.after_hook(line_of(outcome)),
            next@.wf(),
    {
        proof {
            use_type_invariant(&self);
        }
        let ghost old_view = self@;
        match self.phase {
            Phase::PreHook => {
                let hook = match self.pre_hook {
                    Some(hook) => hook,
                    None => HookType::Unknown,
                };
                let mut reports = self.reports;
                reports.push(HookReport { plugin: self.before[self.cursor], hook, outcome });
                proof {
                    assert(reports_of(reports@) =~= old_view.reports.push(
                        old_view.report_of(old_view.reports.len() as int, line_of(outcome)),
                    ));
                }
                let count = self.before.len();
                let last = self.cursor + 1 >= count;
                Dispatcher {
                    phase: if last {
                        Phase::Executing
                    } else {
                        Phase::PreHook
                    },
                    cursor: if last {
                        0
                    } else {
                        self.cursor + 1
                    },
                    pre_hook: self.pre_hook,
                    post_hook: self.post_hook,
                    before: self.before,
                    after: self.after,
                    result: self.result,
                    reports,
                }
            },
            Phase::PostHook => {
                let hook = match self.post_hook {
                    Some(hook) => hook,
                    None => HookType::Unknown,
                };
                let mut reports = self.reports;
                reports.push(HookReport { plugin: self.after[self.cursor], hook, outcome });
                proof {
                    assert(reports_of(reports@) =~= old_view.reports.push(
                        old_view.report_of(old_view.reports.len() as int, line_of(outcome)),
                    ));
                }
                let count = self.after.len();
                let last = self.cursor + 1 >= count;
                let phase = if !last {
                    Phase::PostHook
                } else {
                    match &self.result {
                        Some(Ok(_)) => Phase::Done,
                        _ => Phase::Failed,
                    }
                };
                Dispatcher {
                    phase,
                    cursor: if last {
                        0
                    } else {
                        self.cursor + 1
                    },
                    pre_hook: self.pre_hook,
                    post_hook: self.post_hook,
                    before: self.before,
                    after: self.after,
                    result: self.result,
                    reports,
                }
            },
            _ => self,
        }
    }

    /// Takes what the command has returned.
    pub fn executed(self, result: Result<CommandOutput, CommandError>) -> (next: Dispatcher)
        ensures
            next@ == self@.after_command(outcome_of(result)),
            next@.wf(),
    {
        proof {
            use_type_invariant(&self);
        }
        match self.phase {
            Phase::Executing => {
                let phase = if self.after.len() > 0 {
                    Phase::PostHook
                } else {
                    match &result {
                        Ok(_) => Phase::Done,
                        Err(_) => Phase::Failed,
                    }
                };
                Dispatcher {
                    phase,
                    cursor: 0,
                    pre_hook: self.pre_hook,
                    post_hook: self.post_hook,
                    before: self.before,
                    after: self.after,
                    result: Some(result),
                    reports: self.reports,
                }
            },
            _ => self,
        }
    }

    /// Hands back the outcome once everything has run, and nothing before.
    pub fn finish(self) -> (outcome: Option<DispatchOutcome>)
        ensures
            self@.pending() != Action::Return ==> outcome is None,
            self@.pending() == Action::Return ==> (outcome matches Some(o) && Some(
                outcome_of(o.result),
            ) == self@.result && reports_of(o.diagnostics@) == self@.reports),
    {
        proof {
            use_type_invariant(&self);
        }
        match self.phase {
            Phase::Done | Phase::Failed => match self.result {
                Some(result) => Some(DispatchOutcome { result, diagnostics: self.reports }),
                None => None,
            },
            _ => None,
        }
    }
}

/// The request to call the plugin at place `plugin` for `hook`.
pub open spec fn call(plugin: usize, hook: HookType) -> Action {
    Action::InvokeHook { plugin, hook }
}

/// The dispatcher after the first `count` of `outcomes` were reported to it,
/// one after the other.
pub open spec fn after_hooks(
    dispatcher: DispatcherView,
    outcomes: Seq<Result<Seq<char>, Seq<char>>>,
    count: nat,
) -> DispatcherView
    decreases count,
{
    if count == 0 {
        dispatcher
    } else {
        after_hooks(dispatcher, outcomes, (count - 1) as nat).after_hook(outcomes[count - 1])
    }
}

/// One whole execution: the dispatcher starts, hears from every plugin of the
/// pre-hook, hears from the command, and hears from every plugin of the
/// post-hook.
pub open spec fn after_cycle(
    dispatcher: DispatcherView,
    before: Seq<Result<Seq<char>, Seq<char>>>,
    result: Result<CommandOutputView, CommandError>,
    after: Seq<Result<Seq<char>, Seq<char>>>,
) -> DispatcherView {
    after_hooks(
        after_hooks(dispatcher.started(), before, before.len()).after_command(result),
        after,
        after.len(),
    )
}

/// Whether two dispatchers serve the same command with the same plugins.
pub open spec fn same_plan(a: DispatcherView, b: DispatcherView) -> bool {
    &&& a.pre_hook == b.pre_hook
    &&& a.post_hook == b.post_hook
    &&& a.before == b.before
    &&& a.after == b.after
}

/// Every step keeps the dispatcher in order, and none changes the plugins it
/// is to call.
pub proof fn lemma_steps_keep_order(
    dispatcher: DispatcherView,
    outcome: Result<Seq<char>, Seq<char>>,
    result: Result<CommandOutputView, CommandError>,
)
    requires
        dispatcher.wf(),
    ensures
        dispatcher.started().wf(),
        dispatcher.after_hook(outcome).wf(),
        dispatcher.after_command(result).wf(),
        same_plan(dispatcher, dispatcher.started()),
        same_plan(dispatcher, dispatcher.after_hook(outcome)),
        same_plan(dispatcher, dispatcher.after_command(result)),
{
    let next = dispatcher.after_hook(outcome);
    if dispatcher.phase == Phase::PreHook || dispatcher.phase == Phase::PostHook {
        assert forall|k: int| 0 <= k < next.reports.len() implies (#[trigger] next.reports[k])
            == next.report_of(k, next.reports[k].outcome) by {
            if k < dispatcher.reports.len() {
                assert(next.reports[k] == dispatcher.reports[k]);
            }
        }
    }
}

/// What a plugin answers decides nothing: after any two answers the
/// dispatcher stands in the same phase, asks for the same thing next and
/// holds the same command result. So the command runs after its pre-hooks
/// even if one of them fails, and a hook never stands in for the command.
pub proof fn lemma_hooks_decide_nothing(
    dispatcher: DispatcherView,
    one: Result<Seq<char>, Seq<char>>,
    other: Result<Seq<char>, Seq<char>>,
)
    requires
        dispatcher.wf(),
    ensures
        dispatcher.after_hook(one).phase == dispatcher.after_hook(other).phase,
        dispatcher.after_hook(one).pending() == dispatcher.after_hook(other).pending(),
        dispatcher.after_hook(one).result == dispatcher.result,
        dispatcher.phase == Phase::PreHook && dispatcher.cursor + 1 == dispatcher.before.len()
            ==> dispatcher.after_hook(one).pending() == Action::Execute,
{
}

/// The post-hooks run whether the command went well or not: whatever the
/// command returned, the first plugin of the post-hook is asked for next, and
/// the result that was reported is the result that is kept.
pub proof fn lemma_post_hooks_follow(
    dispatcher: DispatcherView,
    result: Result<CommandOutputView, CommandError>,
)
    requires
        dispatcher.wf(),
        dispatcher.phase == Phase::Executing,
    ensures
        dispatcher.after_command(result).result == Some(result),
        dispatcher.after.len() > 0 ==> dispatcher.after_command(result).pending() == call(
            dispatcher.after[0],
            dispatcher.post_hook->0,
        ),
        dispatcher.after.len() == 0 ==> dispatcher.after_command(result).pending()
            == Action::Return,
{
}

/// The plugins of the pre-hook are asked for one after the other, in the
/// order in which they stand, whatever they answer; the command is asked for
/// when all of them have answered and not before.
pub proof fn lemma_pre_hooks_in_order(
    dispatcher: DispatcherView,
    outcomes: Seq<Result<Seq<char>, Seq<char>>>,
    count: nat,
)
    requires
        dispatcher.wf(),
        dispatcher.phase == Phase::Idle,
        count <= dispatcher.before.len(),
        count <= outcomes.len(),
    ensures
        ({
            let now = after_hooks(dispatcher.started(), outcomes, count);
            &&& now.wf()
            &&& same_plan(now, dispatcher)
            &&& now.result is None
            &&& now.reports.len() == count
            &&& forall|k: int|
                0 <= k < count ==> (#[trigger] now.reports[k]) == dispatcher.report_of(
                    k,
                    outcomes[k],
                )
            &&& count < dispatcher.before.len() ==> now.pending() == call(
                dispatcher.before[count as int],
                dispatcher.pre_hook->0,
            )
            &&& count == dispatcher.before.len() ==> now.pending() == Action::Execute
        }),
    decreases count,
{
    if count > 0 {
        lemma_pre_hooks_in_order(dispatcher, outcomes, (count - 1) as nat);
        let earlier = after_hooks(dispatcher.started(), outcomes, (count - 1) as nat);
        lemma_steps_keep_order(earlier, outcomes[count - 1], Err(CommandError::PluginHookFailure));
        let now = earlier.after_hook(outcomes[count - 1]);
        assert forall|k: int| 0 <= k < count implies (#[trigger] now.reports[k])
            == dispatcher.report_of(k, outcomes[k]) by {
            if k < count - 1 {
                assert(now.reports[k] == earlier.reports[k]);
            }
        }
    } else {
        lemma_steps_keep_order(dispatcher, Err(Seq::empty()), Err(CommandError::PluginHookFailure));
    }
}

/// The plugins of the post-hook are asked for one after the other, in the
/// order in which they stand, whatever they answer and whatever the command
/// returned; when all of them have answered, the dispatcher is done.
pub proof fn lemma_post_hooks_in_order(
    dispatcher: DispatcherView,
    result: Result<CommandOutputView, CommandError>,
    outcomes: Seq<Result<Seq<char>, Seq<char>>>,
    count: nat,
)
    requires
        dispatcher.wf(),
        dispatcher.phase == Phase::Executing,
        count <= dispatcher.after.len(),
        count <= outcomes.len(),
    ensures
        ({
            let now = after_hooks(dispatcher.after_command(result), outcomes, count);
            let made = dispatcher.before.len();
            &&& now.wf()
            &&& same_plan(now, dispatcher)
            &&& now.result == Some(result)
            &&& now.reports.len() == made + count
            &&& forall|k: int| 0 <= k < made ==> (#[trigger] now.reports[k]) == dispatcher.reports[k]
            &&& forall|k: int|
                0 <= k < count ==> (#[trigger] now.reports[made + k]) == dispatcher.report_of(
                    made + k,
                    outcomes[k],
                )
            &&& count < dispatcher.after.len() ==> now.pending() == call(
                dispatcher.after[count as int],
                dispatcher.post_hook->0,
            )
            &&& count == dispatcher.after.len() ==> {
                &&& now.pending() == Action::Return
                &&& now.phase == closing_phase(result)
            }
        }),
    decreases count,
{
    let made = dispatcher.before.len();
    if count > 0 {
        lemma_post_hooks_in_order(dispatcher, result, outcomes, (count - 1) as nat);
        let earlier = after_hooks(dispatcher.after_command(result), outcomes, (count - 1) as nat);
        lemma_steps_keep_order(earlier, outcomes[count - 1], result);
        let now = earlier.after_hook(outcomes[count - 1]);
        assert forall|k: int| 0 <= k < made implies (#[trigger] now.reports[k])
            == dispatcher.reports[k] by {
            assert(now.reports[k] == earlier.reports[k]);
        }
        assert forall|k: int| 0 <= k < count implies (#[trigger] now.reports[made + k])
            == dispatcher.report_of(made + k, outcomes[k]) by {
            if k < count - 1 {
                assert(now.reports[made + k] == earlier.reports[made + k]);
            }
        }
    } else {
        lemma_steps_keep_order(dispatcher, Err(Seq::empty()), result);
    }
}

/// One whole execution ends in `Done` if the command went well and in
/// `Failed` if it did not, whatever the plugins answered. The outcome carries
/// the command's own result, unchanged, and beside it one report for every
/// plugin that was called, in the order of the calls.
pub proof fn lemma_cycle(
    dispatcher: DispatcherView,
    before: Seq<Result<Seq<char>, Seq<char>>>,
    result: Result<CommandOutputView, CommandError>,
    after: Seq<Result<Seq<char>, Seq<char>>>,
)
    requires
        dispatcher.wf(),
        dispatcher.phase == Phase::Idle,
        before.len() == dispatcher.before.len(),
        after.len() == dispatcher.after.len(),
    ensures
        ({
            let end = after_cycle(dispatcher, before, result, after);
            &&& end.wf()
            &&& end.pending() == Action::Return
            &&& end.phase == closing_phase(result)
            &&& end.result == Some(result)
            &&& (end.phase == Phase::Done) == (result is Ok)
            &&& end.reports.len() == before.len() + after.len()
            &&& forall|k: int|
                0 <= k < before.len() ==> (#[trigger] end.reports[k]) == dispatcher.report_of(
                    k,
                    before[k],
                )
            &&& forall|k: int|
                0 <= k < after.len() ==> (#[trigger] end.reports[before.len() + k])
                    == dispatcher.report_of(before.len() + k, after[k])
        }),
{
    lemma_pre_hooks_in_order(dispatcher, before, before.len());
    let middle = after_hooks(dispatcher.started(), before, before.len());
    assert(middle.phase == Phase::Executing);
    lemma_post_hooks_in_order(middle, result, after, after.len());
    let end = after_cycle(dispatcher, before, result, after);
    assert forall|k: int| 0 <= k < after.len() implies (#[trigger] end.reports[before.len() + k])
        == dispatcher.report_of(before.len() + k, after[k]) by {
        assert(middle.report_of(before.len() + k, after[k]) == dispatcher.report_of(
            before.len() + k,
            after[k],
        ));
    }
}

/// In one execution no plugin is called twice for the same hook.
pub proof fn lemma_no_call_twice(
    dispatcher: DispatcherView,
    plugins: Seq<RegistrationView>,
    before: Seq<Result<Seq<char>, Seq<char>>>,
    result: Result<CommandOutputView, CommandError>,
    after: Seq<Result<Seq<char>, Seq<char>>>,
)
    requires
        plugins.len() <= usize::MAX,
        dispatcher == DispatcherView::idle(plugins, dispatcher.pre_hook, dispatcher.post_hook),
        dispatcher.wf(),
        before.len() == dispatcher.before.len(),
        after.len() == dispatcher.after.len(),
    ensures
        ({
            let reports = after_cycle(dispatcher, before, result, after).reports;
            forall|k: int, l: int|
                0 <= k < l < reports.len() ==> (#[trigger] reports[k]).plugin != (
                #[trigger] reports[l]).plugin || reports[k].hook != reports[l].hook
        }),
{
    lemma_called_once_in_order(plugins, dispatcher.pre_hook, dispatcher.post_hook);
    lemma_cycle(dispatcher, before, result, after);
    let reports = after_cycle(dispatcher, before, result, after).reports;
    let made = before.len() as int;
    assert forall|k: int, l: int| 0 <= k < l < reports.len() implies (#[trigger] reports[k]).plugin
        != (#[trigger] reports[l]).plugin || reports[k].hook != reports[l].hook by {
        if l < made {
            assert(reports[k] == dispatcher.report_of(k, before[k]));
            assert(reports[l] == dispatcher.report_of(l, before[l]));
            assert(dispatcher.before[k] < dispatcher.before[l]);
        } else if k >= made {
            assert(reports[made + (k - made)] == dispatcher.report_of(k, after[k - made]));
            assert(reports[made + (l - made)] == dispatcher.report_of(l, after[l - made]));
            assert(dispatcher.after[k - made] < dispatcher.after[l - made]);
        } else {
            assert(reports[k] == dispatcher.report_of(k, before[k]));
            assert(reports[made + (l - made)] == dispatcher.report_of(l, after[l - made]));
        }
    }
}

/// No plugin is called twice for one hook in one execution, and the plugins
/// are called in the order in which they were registered.
pub proof fn lemma_called_once_in_order(
    plugins: Seq<RegistrationView>,
    pre_hook: Option<HookType>,
    post_hook: Option<HookType>,
)
    requires
        plugins.len() <= usize::MAX,
        pre_hook is None || pre_hook != post_hook,
    ensures
        ({
            let dispatcher = DispatcherView::idle(plugins, pre_hook, post_hook);
            &&& dispatcher.wf()
            &&& forall|k: int, l: int|
                0 <= k < l < dispatcher.before.len() ==> (#[trigger] dispatcher.before[k]) < (
                #[trigger] dispatcher.before[l])
            &&& forall|k: int, l: int|
                0 <= k < l < dispatcher.after.len() ==> (#[trigger] dispatcher.after[k]) < (
                #[trigger] dispatcher.after[l])
            &&& forall|k: int|
                0 <= k < dispatcher.before.len() ==> plugins[(
                #[trigger] dispatcher.before[k]) as int].hooks.contains(pre_hook->0)
            &&& forall|k: int|
                0 <= k < dispatcher.after.len() ==> plugins[(
                #[trigger] dispatcher.after[k]) as int].hooks.contains(post_hook->0)
        }),
{
    if pre_hook is Some {
        crate::registry::lemma_subscribers(plugins, pre_hook->0, plugins.len());
    }
    if post_hook is Some {
        crate::registry::lemma_subscribers(plugins, post_hook->0, plugins.len());
    }
}

} // verus!
