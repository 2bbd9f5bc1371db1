//! Plans: the operations that a host is asked to carry out, in order, with what is
//! undone when one of them fails.

use vstd::prelude::*;

use crate::error;
use crate::error::{caused, Error};
use crate::text;
use crate::text::{copies, owned};

verus! {

// ---------------------------------------------------------------------------
// Commands
// ---------------------------------------------------------------------------

/// A program with its arguments.
#[derive(Debug)]
pub struct Command {
    pub program: String,
    pub args: Vec<String>,
}

/// A program with its arguments, as characters.
pub struct CommandLine {
    pub program: Seq<char>,
    pub args: Seq<Seq<char>>,
}

impl View for Command {
    type V = CommandLine;

    open spec fn view(&self) -> CommandLine {
        CommandLine { program: self.program@, args: text::views(self.args@) }
    }
}

/// A program without arguments.
pub open spec fn line(program: Seq<char>) -> CommandLine {
    CommandLine { program, args: seq![] }
}

impl CommandLine {
    /// The command with one more argument.
    pub open spec fn arg(self, arg: Seq<char>) -> CommandLine {
        CommandLine { program: self.program, args: self.args.push(arg) }
    }

    /// The command with more arguments behind its own.
    pub open spec fn args(self, more: Seq<Seq<char>>) -> CommandLine {
        CommandLine { program: self.program, args: self.args + more }
    }
}

/// A program without arguments.
pub fn command(program: &str) -> (result: Command)
    ensures
        result@ == line(program@),
{
    let result = Command { program: owned(program), args: Vec::new() };
    proof {
        assert(text::views(result.args@) =~= seq![]);
    }
    result
}

impl Command {
    /// The same command once more.
    pub fn copy(&self) -> (result: Command)
        ensures
            result@ == self@,
    {
        Command { program: owned(self.program.as_str()), args: copies(&self.args) }
    }

    /// The command with one more argument.
    pub fn arg(self, arg: &str) -> (result: Command)
        ensures
            result@ == self@.arg(arg@),
    {
        let mut args = self.args;
        args.push(owned(arg));
        proof {
            assert(text::views(args@) =~= text::views(self.args@).push(arg@));
        }
        Command { program: self.program, args }
    }

    /// The command with more arguments behind its own.
    pub fn args(self, more: &Vec<String>) -> (result: Command)
        ensures
            result@ == self@.args(text::views(more@)),
    {
        let mut args = self.args;
        let mut index: usize = 0;
        proof {
            assert(text::views(args@) =~= text::views(self.args@) + text::views(more@).take(0));
        }
        while index < more.len()
            invariant
                index <= more@.len(),
                text::views(args@) == text::views(self.args@) + text::views(more@).take(
                    index as int,
                ),
            decreases more@.len() - index,
        {
            let ghost before = args@;
            args.push(more[index].clone());
            proof {
                assert(text::views(args@) =~= text::views(before).push(more@[index as int]@));
                assert(text::views(self.args@) + text::views(more@).take(index + 1) =~= (
                text::views(self.args@) + text::views(more@).take(index as int)).push(
                    more@[index as int]@,
                ));
            }
            index += 1;
        }
        proof {
            assert(text::views(more@).take(index as int) =~= text::views(more@));
        }
        Command { program: self.program, args }
    }
}

// ---------------------------------------------------------------------------
// Actions
// ---------------------------------------------------------------------------

/// Something that a host is asked to do.
#[derive(Debug)]
pub enum Action {
    /// Tell the user something.
    Message(String),
    /// Give up with this reason.
    Fail(String),
    /// Tell the user that a command is about to be run.
    Announce(Command),
    /// Run a command, which must succeed.
    Run(Command),
    /// Run a command with this standard input.
    RunInput { command: Command, input: String },
    /// Run a command with the contents of a file as its standard input.
    RunFile { command: Command, path: String },
    /// Run a command with its standard output going to an existing file.
    RunTo { command: Command, path: String },
    /// Run a command with its output appended to a log.
    RunLog { command: Command, path: String },
    /// Run a command in a directory.
    RunIn { command: Command, directory: String },
    /// Create a directory and those above it.
    CreateDir(String),
    /// Create a directory, which must not exist.
    CreateNewDir(String),
    /// Remove an empty directory.
    RemoveDir(String),
    /// Remove an empty directory, if there is one.
    DropDir(String),
    /// Remove a directory with all it holds, if there is one.
    DropTree(String),
    /// Remove a file.
    RemoveFile(String),
    /// Write a file.
    Write { path: String, text: String },
    /// Append to a file, which is created if `create` says so.
    Append { path: String, text: String, create: bool },
    /// Replace a text in a file, if the file exists.
    Replace { path: String, wanted: String, by: String },
    /// Set the permissions of a file.
    SetMode { path: String, mode: u32 },
    /// Copy a file.
    Copy { from: String, to: String },
    /// Copy what a directory holds, if the directory exists.
    CopyTree { from: String, to: String },
    /// Copy a file out of the templates.
    CopyTemplate { name: String, to: String },
    /// Put a network interface into a group.
    GroupAdd { interface: String, group: String },
    /// Bring a network interface up.
    InterfaceUp(String),
    /// Destroy a network interface.
    InterfaceDestroy(String),
    /// Rename a network interface.
    InterfaceRename { from: String, to: String },
    /// Give a network interface an IPv4 address.
    SetIpv4 { interface: String, address: String },
    /// Give a network interface an IPv6 address.
    SetIpv6 { interface: String, address: String },
    /// Add a network interface to a bridge.
    BridgeAdd { bridge: String, member: String },
    /// Take a network interface out of a bridge.
    BridgeDelete { bridge: String, member: String },
    /// Start a jail, whose host name and host interface are recorded with it.
    JailStart { name: String, root: String, hostname: String, interface: String },
    /// Stop a running jail.
    JailStop(String),
    /// Move a network interface into a running jail.
    JailInterface { name: String, interface: String },
    /// Rename a network interface inside a running jail.
    JailRename { name: String, from: String, to: String },
    /// Start the TPM emulator of a virtual machine with a shell command.
    TpmStart { name: String, script: String },
    /// Stop the TPM emulator of a virtual machine.
    TpmStop(String),
    /// Open a serial console for a virtual machine.
    ConsoleOpen(String),
    /// Close the serial console of a virtual machine.
    ConsoleClose(String),
    /// Start a virtual machine on its serial console.
    VmStart { name: String, command: Command },
    /// Write the number of the process that runs a virtual machine.
    VmPid { name: String, path: String },
    /// Write the number of the process that runs a TPM emulator.
    TpmPid { name: String, path: String },
    /// Send a signal to a process and wait until it is gone.
    Terminate { name: String, pid: i32 },
    /// Wait until a file is gone.
    AwaitRemoval { name: String, path: String },
    /// Unmount a file system, trying again while it is busy.
    Unmount(String),
}

/// Something that a host is asked to do, as plain values.
pub enum Act {
    Message(Seq<char>),
    Fail(Seq<char>),
    Announce(CommandLine),
    Run(CommandLine),
    RunInput { command: CommandLine, input: Seq<char> },
    RunFile { command: CommandLine, path: Seq<char> },
    RunTo { command: CommandLine, path: Seq<char> },
    RunLog { command: CommandLine, path: Seq<char> },
    RunIn { command: CommandLine, directory: Seq<char> },
    CreateDir(Seq<char>),
    CreateNewDir(Seq<char>),
    RemoveDir(Seq<char>),
    DropDir(Seq<char>),
    DropTree(Seq<char>),
    RemoveFile(Seq<char>),
    Write { path: Seq<char>, text: Seq<char> },
    Append { path: Seq<char>, text: Seq<char>, create: bool },
    Replace { path: Seq<char>, wanted: Seq<char>, by: Seq<char> },
    SetMode { path: Seq<char>, mode: u32 },
    Copy { from: Seq<char>, to: Seq<char> },
    CopyTree { from: Seq<char>, to: Seq<char> },
    CopyTemplate { name: Seq<char>, to: Seq<char> },
    GroupAdd { interface: Seq<char>, group: Seq<char> },
    InterfaceUp(Seq<char>),
    InterfaceDestroy(Seq<char>),
    InterfaceRename { from: Seq<char>, to: Seq<char> },
    SetIpv4 { interface: Seq<char>, address: Seq<char> },
    SetIpv6 { interface: Seq<char>, address: Seq<char> },
    BridgeAdd { bridge: Seq<char>, member: Seq<char> },
    BridgeDelete { bridge: Seq<char>, member: Seq<char> },
    JailStart { name: Seq<char>, root: Seq<char>, hostname: Seq<char>, interface: Seq<char> },
    JailStop(Seq<char>),
    JailInterface { name: Seq<char>, interface: Seq<char> },
    JailRename { name: Seq<char>, from: Seq<char>, to: Seq<char> },
    TpmStart { name: Seq<char>, script: Seq<char> },
    TpmStop(Seq<char>),
    ConsoleOpen(Seq<char>),
    ConsoleClose(Seq<char>),
    VmStart { name: Seq<char>, command: CommandLine },
    VmPid { name: Seq<char>, path: Seq<char> },
    TpmPid { name: Seq<char>, path: Seq<char> },
    Terminate { name: Seq<char>, pid: i32 },
    AwaitRemoval { name: Seq<char>, path: Seq<char> },
    Unmount(Seq<char>),
}

impl View for Action {
    type V = Act;

    open spec fn view(&self) -> Act {
        match self {
            Action::Message(message) => Act::Message(message@),
            Action::Fail(reason) => Act::Fail(reason@),
            Action::Announce(command) => Act::Announce(command@),
            Action::Run(command) => Act::Run(command@),
            Action::RunInput { command, input } => Act::RunInput {
                command: command@,
                input: input@,
            },
            Action::RunFile { command, path } => Act::RunFile { command: command@, path: path@ },
            Action::RunTo { command, path } => Act::RunTo { command: command@, path: path@ },
            Action::RunLog { command, path } => Act::RunLog { command: command@, path: path@ },
            Action::RunIn { command, directory } => Act::RunIn {
                command: command@,
                directory: directory@,
            },
            Action::CreateDir(path) => Act::CreateDir(path@),
            Action::CreateNewDir(path) => Act::CreateNewDir(path@),
            Action::RemoveDir(path) => Act::RemoveDir(path@),
            Action::DropDir(path) => Act::DropDir(path@),
            Action::DropTree(path) => Act::DropTree(path@),
            Action::RemoveFile(path) => Act::RemoveFile(path@),
            Action::Write { path, text } => Act::Write { path: path@, text: text@ },
            Action::Append { path, text, create } => Act::Append {
                path: path@,
                text: text@,
                create: *create,
            },
            Action::Replace { path, wanted, by } => Act::Replace {
                path: path@,
                wanted: wanted@,
                by: by@,
            },
            Action::SetMode { path, mode } => Act::SetMode { path: path@, mode: *mode },
            Action::Copy { from, to } => Act::Copy { from: from@, to: to@ },
            Action::CopyTree { from, to } => Act::CopyTree { from: from@, to: to@ },
            Action::CopyTemplate { name, to } => Act::CopyTemplate { name: name@, to: to@ },
            Action::GroupAdd { interface, group } => Act::GroupAdd {
                interface: interface@,
                group: group@,
            },
            Action::InterfaceUp(interface) => Act::InterfaceUp(interface@),
            Action::InterfaceDestroy(interface) => Act::InterfaceDestroy(interface@),
            Action::InterfaceRename { from, to } => Act::InterfaceRename { from: from@, to: to@ },
            Action::SetIpv4 { interface, address } => Act::SetIpv4 {
                interface: interface@,
                address: address@,
            },
            Action::SetIpv6 { interface, address } => Act::SetIpv6 {
                interface: interface@,
                address: address@,
            },
            Action::BridgeAdd { bridge, member } => Act::BridgeAdd {
                bridge: bridge@,
                member: member@,
            },
            Action::BridgeDelete { bridge, member } => Act::BridgeDelete {
                bridge: bridge@,
                member: member@,
            },
            Action::JailStart { name, root, hostname, interface } => Act::JailStart {
                name: name@,
                root: root@,
                hostname: hostname@,
                interface: interface@,
            },
            Action::JailStop(name) => Act::JailStop(name@),
            Action::JailInterface { name, interface } => Act::JailInterface {
                name: name@,
                interface: interface@,
            },
            Action::JailRename { name, from, to } => Act::JailRename {
                name: name@,
                from: from@,
                to: to@,
            },
            Action::TpmStart { name, script } => Act::TpmStart { name: name@, script: script@ },
            Action::TpmStop(name) => Act::TpmStop(name@),
            Action::ConsoleOpen(name) => Act::ConsoleOpen(name@),
            Action::ConsoleClose(name) => Act::ConsoleClose(name@),
            Action::VmStart { name, command } => Act::VmStart { name: name@, command: command@ },
            Action::VmPid { name, path } => Act::VmPid { name: name@, path: path@ },
            Action::TpmPid { name, path } => Act::TpmPid { name: name@, path: path@ },
            Action::Terminate { name, pid } => Act::Terminate { name: name@, pid: *pid },
            Action::AwaitRemoval { name, path } => Act::AwaitRemoval { name: name@, path: path@ },
            Action::Unmount(path) => Act::Unmount(path@),
        }
    }
}

/// A list of actions, as plain values.
pub open spec fn acts(list: Seq<Action>) -> Seq<Act> {
    list.map_values(|action: Action| action@)
}

/// A list of lists of actions, as plain values.
pub open spec fn act_groups(list: Seq<Vec<Action>>) -> Seq<Seq<Act>> {
    list.map_values(|group: Vec<Action>| acts(group@))
}

/// Actions, one after the other.
#[derive(Debug)]
pub struct Actions {
    pub list: Vec<Action>,
}

impl View for Actions {
    type V = Seq<Act>;

    open spec fn view(&self) -> Seq<Act> {
        acts(self.list@)
    }
}

impl Actions {
    /// One action.
    pub fn new(action: Action) -> (actions: Actions)
        ensures
            actions@ == Seq::<Act>::empty().push(action@),
    {
        let mut list: Vec<Action> = Vec::new();
        list.push(action);
        proof {
            assert(acts(list@) =~= Seq::<Act>::empty().push(action@));
        }
        Actions { list }
    }

    /// One more action.
    pub fn and(self, action: Action) -> (actions: Actions)
        ensures
            actions@ == self@.push(action@),
    {
        let mut list = self.list;
        list.push(action);
        proof {
            assert(acts(list@) =~= self@.push(action@));
        }
        Actions { list }
    }
}

// ---------------------------------------------------------------------------
// Steps and plans
// ---------------------------------------------------------------------------

/// One step of a plan.
#[derive(Debug)]
pub struct Step {
    pub action: Action,
    /// What is said before the reason when the action fails.
    pub context: Option<String>,
    /// Whether the plan goes on when the action fails.
    pub optional: bool,
    /// What is done when the action fails, before the plan is given up. Each group
    /// is left at its first failure, and the next group follows.
    pub recovery: Vec<Vec<Action>>,
}

/// One step of a plan, as plain values.
pub struct StepModel {
    pub action: Act,
    pub context: Option<Seq<char>>,
    pub optional: bool,
    pub recovery: Seq<Seq<Act>>,
}

impl View for Step {
    type V = StepModel;

    open spec fn view(&self) -> StepModel {
        StepModel {
            action: self.action@,
            context: match self.context {
                Some(context) => Some(context@),
                None => None,
            },
            optional: self.optional,
            recovery: act_groups(self.recovery@),
        }
    }
}

/// The step that does an action, which must succeed.
pub open spec fn must(action: Act) -> StepModel {
    StepModel { action, context: None, optional: false, recovery: seq![] }
}

/// The step that does an action, which may fail.
pub open spec fn may(action: Act) -> StepModel {
    StepModel { action, context: None, optional: true, recovery: seq![] }
}

/// What a host is asked to do, in order.
#[derive(Debug)]
pub struct Plan {
    pub steps: Vec<Step>,
}

/// What a host is asked to do, as plain values.
pub struct PlanModel {
    pub steps: Seq<StepModel>,
}

impl View for Plan {
    type V = PlanModel;

    open spec fn view(&self) -> PlanModel {
        PlanModel { steps: step_models(self.steps@) }
    }
}

/// Steps, as plain values.
pub open spec fn step_models(steps: Seq<Step>) -> Seq<StepModel> {
    steps.map_values(|step: Step| step@)
}

/// The plan without steps.
pub open spec fn no_steps() -> PlanModel {
    PlanModel { steps: seq![] }
}

impl PlanModel {
    /// One more step.
    pub open spec fn step(self, step: StepModel) -> PlanModel {
        PlanModel { steps: self.steps.push(step) }
    }

    /// One more action, which must succeed.
    pub open spec fn must(self, action: Act) -> PlanModel {
        self.step(must(action))
    }

    /// One more action, which may fail.
    pub open spec fn may(self, action: Act) -> PlanModel {
        self.step(may(action))
    }

    /// One more action, which must succeed, with an explanation of its failure.
    pub open spec fn must_for(self, action: Act, context: Seq<char>) -> PlanModel {
        self.step(
            StepModel { action, context: Some(context), optional: false, recovery: seq![] },
        )
    }

    /// One more action, which must succeed, with what is done when it does not.
    pub open spec fn must_or(self, action: Act, recovery: Seq<Seq<Act>>) -> PlanModel {
        self.step(StepModel { action, context: None, optional: false, recovery })
    }

    /// One more action, which must succeed, with an explanation of its failure and with
    /// what is done then.
    pub open spec fn must_for_or(
        self,
        action: Act,
        context: Seq<char>,
        recovery: Seq<Seq<Act>>,
    ) -> PlanModel {
        self.step(StepModel { action, context: Some(context), optional: false, recovery })
    }

    /// One more message.
    pub open spec fn tell(self, message: Seq<char>) -> PlanModel {
        self.must(Act::Message(message))
    }

    /// One more command, which must succeed.
    pub open spec fn run(self, command: CommandLine) -> PlanModel {
        self.must(Act::Run(command))
    }

    /// The end of the plan for a reason.
    pub open spec fn fail(self, reason: Seq<char>) -> PlanModel {
        self.must(Act::Fail(reason))
    }

    /// Whether an action is among those of the plan.
    pub open spec fn performs(self, action: Act) -> bool {
        exists|i: int| 0 <= i < self.steps.len() && (#[trigger] self.steps[i]).action == action
    }

    /// The steps of another plan behind those of this one.
    pub open spec fn then_all(self, other: PlanModel) -> PlanModel {
        PlanModel { steps: self.steps + other.steps }
    }
}

/// The recovery of a step: groups of actions.
#[derive(Debug)]
pub struct Recovery {
    pub groups: Vec<Vec<Action>>,
}

impl View for Recovery {
    type V = Seq<Seq<Act>>;

    open spec fn view(&self) -> Seq<Seq<Act>> {
        act_groups(self.groups@)
    }
}

/// A recovery that does nothing.
pub open spec fn no_recovery() -> Seq<Seq<Act>> {
    Seq::empty()
}

/// One action.
pub open spec fn one(action: Act) -> Seq<Act> {
    Seq::empty().push(action)
}

impl Recovery {
    /// Nothing to be done.
    pub fn new() -> (recovery: Recovery)
        ensures
            recovery@ == no_recovery(),
    {
        let recovery = Recovery { groups: Vec::new() };
        proof {
            assert(recovery@ =~= no_recovery());
        }
        recovery
    }

    /// One more group of actions, which is left at its first failure.
    pub fn group(self, actions: Actions) -> (recovery: Recovery)
        ensures
            recovery@ == self@.push(actions@),
    {
        let mut groups = self.groups;
        groups.push(actions.list);
        proof {
            assert(act_groups(groups@) =~= self@.push(actions@));
        }
        Recovery { groups }
    }

    /// One more action, whose failure does not matter.
    pub fn also(self, action: Action) -> (recovery: Recovery)
        ensures
            recovery@ == self@.push(one(action@)),
    {
        self.group(Actions::new(action))
    }
}

impl Plan {
    /// The plan without steps.
    pub fn new() -> (plan: Plan)
        ensures
            plan@ == no_steps(),
    {
        let plan = Plan { steps: Vec::new() };
        proof {
            assert(step_models(plan.steps@) =~= seq![]);
        }
        plan
    }

    fn push(self, step: Step) -> (plan: Plan)
        ensures
            plan@ == self@.step(step@),
    {
        let mut steps = self.steps;
        steps.push(step);
        let plan = Plan { steps };
        proof {
            assert(step_models(plan.steps@) =~= step_models(self.steps@).push(step@));
        }
        plan
    }

    /// One more action, which must succeed.
    pub fn must(self, action: Action) -> (plan: Plan)
        ensures
            plan@ == self@.must(action@),
    {
        let recovery = Recovery::new();
        self.push(Step { action, context: None, optional: false, recovery: recovery.groups })
    }

    /// One more action, which may fail.
    pub fn may(self, action: Action) -> (plan: Plan)
        ensures
            plan@ == self@.may(action@),
    {
        let recovery = Recovery::new();
        self.push(Step { action, context: None, optional: true, recovery: recovery.groups })
    }

    /// One more action, which must succeed, with an explanation of its failure.
    pub fn must_for(self, action: Action, context: String) -> (plan: Plan)
        ensures
            plan@ == self@.must_for(action@, context@),
    {
        let recovery = Recovery::new();
        self.push(
            Step { action, context: Some(context), optional: false, recovery: recovery.groups },
        )
    }

    /// One more action, which must succeed, with what is done when it does not.
    pub fn must_or(self, action: Action, recovery: Recovery) -> (plan: Plan)
        ensures
            plan@ == self@.must_or(action@, recovery@),
    {
        self.push(Step { action, context: None, optional: false, recovery: recovery.groups })
    }

    /// One more action, which must succeed, with an explanation of its failure and
    /// with what is done then.
    pub fn must_for_or(self, action: Action, context: String, recovery: Recovery) -> (plan: Plan)
        ensures
            plan@ == self@.must_for_or(action@, context@, recovery@),
    {
        self.push(
            Step { action, context: Some(context), optional: false, recovery: recovery.groups },
        )
    }

    /// One more message.
    pub fn tell(self, text: String) -> (plan: Plan)
        ensures
            plan@ == self@.tell(text@),
    {
        self.must(Action::Message(text))
    }

    /// One more command, which must succeed.
    pub fn run(self, command: Command) -> (plan: Plan)
        ensures
            plan@ == self@.run(command@),
    {
        self.must(Action::Run(command))
    }

    /// The end of the plan for a reason.
    pub fn fail(self, reason: String) -> (plan: Plan)
        ensures
            plan@ == self@.fail(reason@),
    {
        self.must(Action::Fail(reason))
    }

    /// The steps of another plan behind those of this one.
    pub fn then_all(self, other: Plan) -> (plan: Plan)
        ensures
            plan@ == self@.then_all(other@),
    {
        let mut steps = self.steps;
        let mut more = other.steps;
        let ghost own = steps@;
        let ghost added = more@;
        steps.append(&mut more);
        proof {
            assert(step_models(steps@) =~= step_models(own) + step_models(added));
        }
        Plan { steps }
    }
}

// ---------------------------------------------------------------------------
// Carrying a plan out
// ---------------------------------------------------------------------------

/// Where the carrying out of a plan stands.
pub enum Phase {
    /// The steps are being done.
    Doing,
    /// A step has failed, and its recovery is being done.
    Recovering { group: nat, item: nat, reason: Seq<char> },
    /// A step has failed, and its recovery is over.
    Failed { reason: Seq<char> },
}

/// A plan that is being carried out.
pub struct RunModel {
    pub steps: Seq<StepModel>,
    pub at: nat,
    pub phase: Phase,
}

/// The recovery from `group` and `item` on, with groups that are over left out.
pub open spec fn settle(recovery: Seq<Seq<Act>>, group: nat, item: nat, reason: Seq<char>) -> Phase
    decreases recovery.len() - group,
{
    if group >= recovery.len() {
        Phase::Failed { reason }
    } else if item < recovery[group as int].len() {
        Phase::Recovering { group, item, reason }
    } else {
        settle(recovery, group + 1, 0, reason)
    }
}

/// The reason for which a plan is given up.
pub open spec fn reason_spec(step: StepModel, reason: Seq<char>) -> Seq<char> {
    match step.context {
        Some(context) => error::with_cause(context, reason),
        None => reason,
    }
}

/// The beginning of a plan.
pub open spec fn begin(steps: Seq<StepModel>) -> RunModel {
    RunModel { steps, at: 0, phase: Phase::Doing }
}

/// What is to be done next, if anything.
pub open spec fn current(run: RunModel) -> Option<Act> {
    match run.phase {
        Phase::Doing => if run.at < run.steps.len() {
            Some(run.steps[run.at as int].action)
        } else {
            None
        },
        Phase::Recovering { group, item, reason } => Some(
            run.steps[run.at as int].recovery[group as int][item as int],
        ),
        Phase::Failed { reason } => None,
    }
}

/// Whether the plan was carried out to its end.
pub open spec fn is_finished(run: RunModel) -> bool {
    run.phase is Doing && run.at >= run.steps.len()
}

/// Where the plan stands after what was to be done next succeeded, or failed for a
/// reason.
pub open spec fn advance(run: RunModel, failure: Option<Seq<char>>) -> RunModel {
    match run.phase {
        Phase::Doing => if run.at >= run.steps.len() {
            run
        } else {
            let step = run.steps[run.at as int];
            match failure {
                None => RunModel { at: run.at + 1, ..run },
                Some(reason) => if step.optional {
                    RunModel { at: run.at + 1, ..run }
                } else {
                    RunModel {
                        phase: settle(step.recovery, 0, 0, reason_spec(step, reason)),
                        ..run
                    }
                },
            }
        },
        Phase::Recovering { group, item, reason } => {
            let recovery = run.steps[run.at as int].recovery;
            match failure {
                None => RunModel { phase: settle(recovery, group, item + 1, reason), ..run },
                Some(_) => RunModel { phase: settle(recovery, group + 1, 0, reason), ..run },
            }
        },
        Phase::Failed { reason } => run,
    }
}

/// Where the plan stands after a list of outcomes.
pub open spec fn advance_all(run: RunModel, failures: Seq<Option<Seq<char>>>) -> RunModel
    decreases failures.len(),
{
    if failures.len() == 0 {
        run
    } else {
        advance(advance_all(run, failures.drop_last()), failures.last())
    }
}

/// A plan that is being carried out.
pub struct Runner {
    steps: Vec<Step>,
    at: usize,
    recovering: bool,
    group: usize,
    item: usize,
    failure: Option<Error>,
}

impl View for Runner {
    type V = RunModel;

    closed spec fn view(&self) -> RunModel {
        RunModel {
            steps: step_models(self.steps@),
            at: self.at as nat,
            phase: match self.failure {
                None => Phase::Doing,
                Some(failure) => if self.recovering {
                    Phase::Recovering {
                        group: self.group as nat,
                        item: self.item as nat,
                        reason: failure@,
                    }
                } else {
                    Phase::Failed { reason: failure@ }
                },
            },
        }
    }
}

/// What comes next in a plan.
pub enum Next<'a> {
    /// Do this, and report how it went.
    Perform(&'a Action),
    /// The plan was carried out.
    Finished,
    /// The plan was given up.
    Failed(&'a Error),
}

impl Runner {
    #[verifier::type_invariant]
    spec fn wf(self) -> bool {
        &&& self.at <= self.steps@.len()
        &&& self.failure is Some ==> self.at < self.steps@.len()
        &&& self.failure is Some && self.recovering ==> self.group < self.steps@[self.at as int].recovery@.len()
            && self.item < self.steps@[self.at as int].recovery@[self.group as int]@.len()
    }

    /// Begins a plan.
    pub fn new(plan: Plan) -> (runner: Runner)
        ensures
            runner@ == begin(plan@.steps),
    {
        Runner { steps: plan.steps, at: 0, recovering: false, group: 0, item: 0, failure: None }
    }

    /// What comes next.
    pub fn next(&self) -> (next: Next<'_>)
        ensures
            match next {
                Next::Perform(action) => current(self@) == Some(action@),
                Next::Finished => is_finished(self@),
                Next::Failed(error) => self@.phase == (Phase::Failed { reason: error@ }),
            },
    {
        proof {
            use_type_invariant(self);
        }
        match &self.failure {
            None => if self.at < self.steps.len() {
                Next::Perform(&self.steps[self.at].action)
            } else {
                Next::Finished
            },
            Some(failure) => if self.recovering {
                Next::Perform(&self.steps[self.at].recovery[self.group][self.item])
            } else {
                Next::Failed(failure)
            },
        }
    }

    /// Goes on after what came next has succeeded, or failed for a reason.
    pub fn report(self, outcome: Result<(), Error>) -> (runner: Runner)
        ensures
            runner@ == advance(
                self@,
                match outcome {
                    Ok(_) => None,
                    Err(error) => Some(error@),
                },
            ),
    {
        proof {
            use_type_invariant(&self);
        }
        let ghost before = self@;
        let Runner { steps, at, recovering, group, item, failure } = self;
        match failure {
            None => {
                if at >= steps.len() {
                    return Runner { steps, at, recovering, group, item, failure: None };
                }
                match outcome {
                    Ok(_) => Runner {
                        steps,
                        at: at + 1,
                        recovering,
                        group,
                        item,
                        failure: None,
                    },
                    Err(reason) => if steps[at].optional {
                        Runner { steps, at: at + 1, recovering, group, item, failure: None }
                    } else {
                        let full = match &steps[at].context {
                            Some(context) => caused(
                                owned(context.as_str()),
                                reason.message.as_str(),
                            ),
                            None => reason,
                        };
                        let place = settled(&steps[at].recovery, 0, 0, Ghost(full@));
                        match place {
                            Some((group, item)) => Runner {
                                steps,
                                at,
                                recovering: true,
                                group,
                                item,
                                failure: Some(full),
                            },
                            None => Runner {
                                steps,
                                at,
                                recovering: false,
                                group,
                                item,
                                failure: Some(full),
                            },
                        }
                    },
                }
            },
            Some(reason) => {
                if !recovering {
                    return Runner {
                        steps,
                        at,
                        recovering,
                        group,
                        item,
                        failure: Some(reason),
                    };
                }
                let groups: usize = steps[at].recovery.len();
                let items: usize = steps[at].recovery[group].len();
                assert(group < groups && item < items);
                let place = match outcome {
                    Ok(_) => settled(&steps[at].recovery, group, item + 1, Ghost(reason@)),
                    Err(_) => settled(&steps[at].recovery, group + 1, 0, Ghost(reason@)),
                };
                match place {
                    Some((group, item)) => Runner {
                        steps,
                        at,
                        recovering: true,
                        group,
                        item,
                        failure: Some(reason),
                    },
                    None => Runner {
                        steps,
                        at,
                        recovering: false,
                        group,
                        item,
                        failure: Some(reason),
                    },
                }
            },
        }
    }
}

fn settled(
    recovery: &Vec<Vec<Action>>,
    group: usize,
    item: usize,
    Ghost(reason): Ghost<Seq<char>>,
) -> (place: Option<(usize, usize)>)
    requires
        group <= recovery@.len(),
        group < recovery@.len() ==> item <= recovery@[group as int]@.len(),
    ensures
        match place {
            Some((at, next)) => {
                &&& at < recovery@.len() && next < recovery@[at as int]@.len()
                &&& settle(act_groups(recovery@), group as nat, item as nat, reason) == (
                Phase::Recovering { group: at as nat, item: next as nat, reason })
            },
            None => settle(act_groups(recovery@), group as nat, item as nat, reason) == (
            Phase::Failed { reason }),
        },
{
    let mut at: usize = group;
    let mut next: usize = item;
    while at < recovery.len()
        invariant
            group <= at <= recovery@.len(),
            at < recovery@.len() ==> next <= recovery@[at as int]@.len(),
            settle(act_groups(recovery@), group as nat, item as nat, reason) == settle(
                act_groups(recovery@),
                at as nat,
                next as nat,
                reason,
            ),
        decreases recovery@.len() - at,
    {
        if next < recovery[at].len() {
            return Some((at, next));
        }
        at += 1;
        next = 0;
    }
    None
}

// ---------------------------------------------------------------------------
// Laws
// ---------------------------------------------------------------------------

proof fn lemma_settle_reason(recovery: Seq<Seq<Act>>, group: nat, item: nat, reason: Seq<char>)
    ensures
        match settle(recovery, group, item, reason) {
            Phase::Doing => false,
            Phase::Recovering { group: g, item: i, reason: r } => r == reason && g >= group && g
                < recovery.len() && i < recovery[g as int].len() && (g > group || i == item),
            Phase::Failed { reason: r } => r == reason,
        },
    decreases recovery.len() - group,
{
    if group < recovery.len() && item >= recovery[group as int].len() {
        lemma_settle_reason(recovery, group + 1, 0, reason);
    }
}

/// While everything succeeds, the steps are done one after the other, and after the
/// last one the plan is finished.
pub proof fn law_steps_run_in_order(steps: Seq<StepModel>, done: nat)
    requires
        done <= steps.len(),
    ensures
        advance_all(begin(steps), Seq::new(done, |i: int| None::<Seq<char>>)) == (RunModel {
            steps,
            at: done,
            phase: Phase::Doing,
        }),
        done < steps.len() ==> current(
            advance_all(begin(steps), Seq::new(done, |i: int| None::<Seq<char>>)),
        ) == Some(steps[done as int].action),
        is_finished(
            advance_all(begin(steps), Seq::new(steps.len(), |i: int| None::<Seq<char>>)),
        ) || done < steps.len(),
    decreases done,
{
    let outcomes = Seq::new(done, |i: int| None::<Seq<char>>);
    if done > 0 {
        law_steps_run_in_order(steps, (done - 1) as nat);
        assert(outcomes.drop_last() =~= Seq::new((done - 1) as nat, |i: int| None::<Seq<char>>));
    }
}

/// A step whose failure matters is the last one that is begun: from then on only its
/// recovery is done, group after group, and the reason stays what it was.
pub proof fn law_failure_ends_the_plan(
    run: RunModel,
    reason: Seq<char>,
    later: Seq<Option<Seq<char>>>,
)
    requires
        run.phase is Doing,
        run.at < run.steps.len(),
        !run.steps[run.at as int].optional,
    ensures
        ({
            let failed = advance_all(advance(run, Some(reason)), later);
            &&& failed.at == run.at && failed.steps == run.steps
            &&& match failed.phase {
                Phase::Doing => false,
                Phase::Recovering { group, item, reason: given } => given == reason_spec(
                    run.steps[run.at as int],
                    reason,
                ) && group < run.steps[run.at as int].recovery.len() && item
                    < run.steps[run.at as int].recovery[group as int].len(),
                Phase::Failed { reason: given } => given == reason_spec(
                    run.steps[run.at as int],
                    reason,
                ),
            }
        }),
    decreases later.len(),
{
    let step = run.steps[run.at as int];
    lemma_settle_reason(step.recovery, 0, 0, reason_spec(step, reason));
    if later.len() > 0 {
        law_failure_ends_the_plan(run, reason, later.drop_last());
        let before = advance_all(advance(run, Some(reason)), later.drop_last());
        if let Phase::Recovering { group, item, reason: given } = before.phase {
            lemma_settle_reason(step.recovery, group, item + 1, given);
            lemma_settle_reason(step.recovery, group + 1, 0, given);
        }
    }
}

/// A step that may fail is passed over when it does.
pub proof fn law_optional_failure_is_passed_over(run: RunModel, reason: Seq<char>)
    requires
        run.phase is Doing,
        run.at < run.steps.len(),
        run.steps[run.at as int].optional,
    ensures
        advance(run, Some(reason)) == advance(run, None),
{
}

/// The number of actions in the groups from `group` on, without the first `item` of
/// the first of them.
pub open spec fn remaining(recovery: Seq<Seq<Act>>, group: nat, item: nat) -> nat
    decreases recovery.len() - group,
{
    if group >= recovery.len() {
        0
    } else {
        let rest = remaining(recovery, group + 1, 0);
        if item < recovery[group as int].len() {
            (recovery[group as int].len() - item + rest) as nat
        } else {
            rest
        }
    }
}

proof fn lemma_settle_remaining(recovery: Seq<Seq<Act>>, group: nat, item: nat, reason: Seq<char>)
    ensures
        match settle(recovery, group, item, reason) {
            Phase::Doing => false,
            Phase::Recovering { group: g, item: i, reason: r } => remaining(recovery, g, i)
                == remaining(recovery, group, item),
            Phase::Failed { reason: r } => remaining(recovery, group, item) == 0,
        },
    decreases recovery.len() - group,
{
    if group < recovery.len() && item >= recovery[group as int].len() {
        lemma_settle_remaining(recovery, group + 1, 0, reason);
    }
}

/// A recovery comes to its end: each action of it that succeeds leaves one action
/// fewer to do, one that fails leaves out the rest of its group as well, and where
/// none is left the plan is given up.
pub proof fn law_recovery_ends(run: RunModel, failure: Option<Seq<char>>)
    requires
        run.at < run.steps.len(),
        run.phase matches Phase::Recovering { group, item, reason } && group
            < run.steps[run.at as int].recovery.len() && item
            < run.steps[run.at as int].recovery[group as int].len(),
    ensures
        run.phase matches Phase::Recovering { group, item, reason } && ({
            let recovery = run.steps[run.at as int].recovery;
            let left = remaining(recovery, group, item);
            &&& left > 0
            &&& match advance(run, failure).phase {
                Phase::Doing => false,
                Phase::Recovering { group: g, item: i, reason: r } => {
                    &&& remaining(recovery, g, i) < left
                    &&& failure is None ==> remaining(recovery, g, i) == left - 1
                },
                Phase::Failed { reason: r } => failure is None ==> left == 1,
            }
        }),
{
    if let Phase::Recovering { group, item, reason } = run.phase {
        let recovery = run.steps[run.at as int].recovery;
        lemma_settle_remaining(recovery, group, item + 1, reason);
        lemma_settle_remaining(recovery, group + 1, 0, reason);
    }
}

/// The actions of a recovery that are still to be done from one of them on, in order.
pub open spec fn actions_left(recovery: Seq<Seq<Act>>, group: nat, item: nat) -> Seq<Act>
    decreases recovery.len() - group,
{
    if group >= recovery.len() {
        Seq::empty()
    } else if item < recovery[group as int].len() {
        recovery[group as int].skip(item as int) + actions_left(recovery, group + 1, 0)
    } else {
        actions_left(recovery, group + 1, 0)
    }
}

/// The actions that a plan still does for the recovery of a step.
pub open spec fn recovery_left(run: RunModel) -> Seq<Act> {
    match run.phase {
        Phase::Recovering { group, item, reason } => actions_left(
            run.steps[run.at as int].recovery,
            group,
            item,
        ),
        _ => Seq::empty(),
    }
}

proof fn lemma_settle_left(recovery: Seq<Seq<Act>>, group: nat, item: nat, reason: Seq<char>)
    ensures
        match settle(recovery, group, item, reason) {
            Phase::Doing => false,
            Phase::Recovering { group: g, item: i, reason: r } => g < recovery.len() && i
                < recovery[g as int].len() && actions_left(recovery, g, i) == actions_left(
                recovery,
                group,
                item,
            ),
            Phase::Failed { reason: r } => actions_left(recovery, group, item).len() == 0,
        },
    decreases recovery.len() - group,
{
    if group < recovery.len() && item >= recovery[group as int].len() {
        lemma_settle_left(recovery, group + 1, 0, reason);
    }
}

/// A step that fails and must not begins its recovery with the first action of it, and all
/// of its recovery is still to be done; with nothing to be done the plan has failed. The
/// reason ends with that of the failure, and begins with the explanation that the step has.
pub proof fn law_failure_begins_the_recovery(run: RunModel, reason: Seq<char>)
    requires
        run.phase is Doing,
        run.at < run.steps.len(),
        !run.steps[run.at as int].optional,
    ensures
        recovery_left(advance(run, Some(reason))) == actions_left(
            run.steps[run.at as int].recovery,
            0,
            0,
        ),
        advance(run, Some(reason)).phase is Failed <==> actions_left(
            run.steps[run.at as int].recovery,
            0,
            0,
        ).len() == 0,
        run.steps[run.at as int].context is None ==> reason_spec(run.steps[run.at as int], reason)
            == reason,
        run.steps[run.at as int].context matches Some(context) ==> {
            &&& text::starts_with_spec(reason_spec(run.steps[run.at as int], reason), context)
            &&& text::ends_with_spec(reason_spec(run.steps[run.at as int], reason), reason)
        },
{
    let step = run.steps[run.at as int];
    let full = reason_spec(step, reason);
    lemma_settle_left(step.recovery, 0, 0, full);
    if let Some(context) = step.context {
        assert(full.take(context.len() as int) =~= context);
        assert(full.skip(full.len() - reason.len()) =~= reason);
    }
    if let Phase::Recovering { group, item, reason: r } = advance(run, Some(reason)).phase {
        assert(actions_left(step.recovery, group, item).len() > 0);
    } else {
        assert(recovery_left(advance(run, Some(reason))) =~= actions_left(step.recovery, 0, 0));
    }
}

/// A recovery is done in order: what is to be done next is the first action that is left,
/// a success leaves the others, and a failure leaves the groups behind its own.
pub proof fn law_recovery_is_done_in_order(run: RunModel, failure: Option<Seq<char>>)
    requires
        run.at < run.steps.len(),
        run.phase matches Phase::Recovering { group, item, reason } && group
            < run.steps[run.at as int].recovery.len() && item
            < run.steps[run.at as int].recovery[group as int].len(),
    ensures
        recovery_left(run).len() > 0,
        current(run) == Some(recovery_left(run).first()),
        failure is None ==> recovery_left(advance(run, failure)) == recovery_left(run).drop_first(),
        failure is Some ==> recovery_left(advance(run, failure)) == recovery_left(run).skip(
            run.steps[run.at as int].recovery[run.phase->Recovering_group as int].len()
                - run.phase->Recovering_item,
        ),
        advance(run, failure).phase is Failed <==> recovery_left(advance(run, failure)).len() == 0,
{
    if let Phase::Recovering { group, item, reason } = run.phase {
        let recovery = run.steps[run.at as int].recovery;
        let own = recovery[group as int];
        let later = actions_left(recovery, group + 1, 0);
        lemma_settle_left(recovery, group, item + 1, reason);
        lemma_settle_left(recovery, group + 1, 0, reason);
        let left = recovery_left(run);
        assert(left == own.skip(item as int) + later);
        assert(left.drop_first() =~= own.skip((item + 1) as int) + later);
        assert(left.skip(own.len() - item) =~= later);
        assert(actions_left(recovery, group, item + 1) =~= left.drop_first());
        let after = advance(run, failure);
        match after.phase {
            Phase::Recovering { group: g, item: i, reason: r } => {
                assert(actions_left(recovery, g, i).len() > 0);
            },
            _ => {
                assert(recovery_left(after) =~= Seq::<Act>::empty());
                if failure is None {
                    assert(recovery_left(after) =~= left.drop_first());
                } else {
                    assert(recovery_left(after) =~= left.skip(own.len() - item));
                }
            },
        }
    }
}

/// Each way of making a plan longer keeps what it holds and adds one step behind: the
/// action, whether it may fail, how its failure is explained and what is done then. Two
/// plans after one another have the steps of the first and behind them those of the second.
pub proof fn law_plans_grow_by_a_step(
    plan: PlanModel,
    other: PlanModel,
    action: Act,
    context: Seq<char>,
    recovery: Seq<Seq<Act>>,
)
    ensures
        no_steps().steps.len() == 0,
        forall|i: int|
            0 <= i < plan.steps.len() ==> #[trigger] plan.steps[i] == plan.must(action).steps[i]
                && plan.steps[i] == plan.may(action).steps[i] && plan.steps[i] == plan.must_for_or(
                action,
                context,
                recovery,
            ).steps[i] && plan.steps[i] == plan.then_all(other).steps[i],
        plan.must(action).steps.len() == plan.steps.len() + 1,
        plan.may(action).steps.len() == plan.steps.len() + 1,
        plan.must_for_or(action, context, recovery).steps.len() == plan.steps.len() + 1,
        plan.then_all(other).steps.len() == plan.steps.len() + other.steps.len(),
        forall|i: int|
            0 <= i < other.steps.len() ==> #[trigger] other.steps[i] == plan.then_all(
                other,
            ).steps[plan.steps.len() + i],
        plan.must(action).steps.last().action == action,
        plan.may(action).steps.last().action == action,
        plan.must_for_or(action, context, recovery).steps.last().action == action,
        plan.may(action).steps.last().optional,
        !plan.must(action).steps.last().optional,
        !plan.must_for_or(action, context, recovery).steps.last().optional,
        plan.must(action).steps.last().context is None,
        plan.must(action).steps.last().recovery.len() == 0,
        plan.may(action).steps.last().recovery.len() == 0,
        plan.must_for_or(action, context, recovery).steps.last().context == Some(context),
        plan.must_for_or(action, context, recovery).steps.last().recovery == recovery,
        plan.must_for(action, context) == plan.must_for_or(action, context, seq![]),
        plan.must_or(action, seq![]) == plan.must(action),
        plan.must_or(action, recovery).steps.last().recovery == recovery,
{
}

// ---------------------------------------------------------------------------
// What a plan does
// ---------------------------------------------------------------------------

impl CommandLine {
    /// Whether an argument is among those of the command.
    pub open spec fn names(self, arg: Seq<char>) -> bool {
        exists|i: int| 0 <= i < self.args.len() && #[trigger] self.args[i] == arg
    }

    /// Whether an option has this value behind it.
    pub open spec fn has(self, option: Seq<char>, value: Seq<char>) -> bool {
        exists|i: int|
            0 <= i < self.args.len() - 1 && #[trigger] self.args[i] == option && self.args[i + 1]
                == value
    }
}

impl PlanModel {
    /// Whether the plan writes a file with a text that holds this part.
    pub open spec fn writes(self, path: Seq<char>, part: Seq<char>) -> bool {
        exists|i: int|
            0 <= i < self.steps.len() && is_write((#[trigger] self.steps[i]).action, path, part)
    }

    /// Whether the plan runs a program with exactly these arguments.
    pub open spec fn calls(self, program: Seq<char>, args: Seq<Seq<char>>) -> bool {
        exists|i: int|
            0 <= i < self.steps.len() && is_call((#[trigger] self.steps[i]).action, program, args)
    }

    /// Whether the plan runs a program with exactly these arguments and this standard input.
    pub open spec fn feeds(
        self,
        program: Seq<char>,
        args: Seq<Seq<char>>,
        given: Seq<char>,
    ) -> bool {
        exists|i: int|
            0 <= i < self.steps.len() && is_feed(
                (#[trigger] self.steps[i]).action,
                program,
                args,
                given,
            )
    }

    /// Whether the plan runs this command.
    pub open spec fn runs(self, command: CommandLine) -> bool {
        self.performs(Act::Run(command))
    }

    /// Whether the plan runs a program with this option and value.
    pub open spec fn runs_with(
        self,
        program: Seq<char>,
        option: Seq<char>,
        value: Seq<char>,
    ) -> bool {
        exists|i: int|
            0 <= i < self.steps.len() && is_run_with(
                (#[trigger] self.steps[i]).action,
                program,
                option,
                value,
            )
    }
}

/// Whether an action writes a file with a text that holds this part.
pub open spec fn is_write(action: Act, path: Seq<char>, part: Seq<char>) -> bool {
    action matches Act::Write { path: file, text } && file == path && text::contains_spec(text, part)
}

/// Whether an action runs a program with exactly these arguments.
pub open spec fn is_call(action: Act, program: Seq<char>, args: Seq<Seq<char>>) -> bool {
    action matches Act::Run(command) && command.program == program && command.args =~= args
}

/// Whether an action runs a program with exactly these arguments and this standard input.
pub open spec fn is_feed(
    action: Act,
    program: Seq<char>,
    args: Seq<Seq<char>>,
    given: Seq<char>,
) -> bool {
    action matches Act::RunInput { command, input } && command.program == program && command.args
        =~= args && input == given
}

/// Whether an action runs a program with this option and value.
pub open spec fn is_run_with(
    action: Act,
    program: Seq<char>,
    option: Seq<char>,
    value: Seq<char>,
) -> bool {
    action matches Act::Run(command) && command.program == program && command.has(option, value)
}

/// A command with one more argument names what it named, and the argument.
pub broadcast proof fn lemma_arg_names(line: CommandLine, last: Seq<char>, arg: Seq<char>)
    ensures
        #[trigger] line.arg(last).names(arg) == (line.names(arg) || last == arg),
{
    let longer = line.arg(last);
    if line.names(arg) {
        let i = choose|i: int| 0 <= i < line.args.len() && #[trigger] line.args[i] == arg;
        assert(longer.args[i] == arg);
    }
    if last == arg {
        assert(longer.args[line.args.len() as int] == arg);
    }
    if longer.names(arg) {
        let i = choose|i: int| 0 <= i < longer.args.len() && #[trigger] longer.args[i] == arg;
        if i < line.args.len() {
            assert(line.args[i] == arg);
        }
    }
}

/// A command with one more argument has the options that it had, and the one that its last
/// argument was, with the new one as its value.
pub broadcast proof fn lemma_arg_has(
    line: CommandLine,
    last: Seq<char>,
    option: Seq<char>,
    value: Seq<char>,
)
    ensures
        #[trigger] line.arg(last).has(option, value) == (line.has(option, value) || (
        line.args.len() > 0 && line.args.last() == option && last == value)),
{
    let longer = line.arg(last);
    let count = line.args.len() as int;
    if line.has(option, value) {
        let i = choose|i: int|
            0 <= i < line.args.len() - 1 && #[trigger] line.args[i] == option && line.args[i + 1]
                == value;
        assert(longer.args[i] == option && longer.args[i + 1] == value);
    }
    if count > 0 && line.args.last() == option && last == value {
        assert(longer.args[count - 1] == option && longer.args[count] == value);
    }
    if longer.has(option, value) {
        let i = choose|i: int|
            0 <= i < longer.args.len() - 1 && #[trigger] longer.args[i] == option && longer.args[i
                + 1] == value;
        if i < count - 1 {
            assert(line.args[i] == option && line.args[i + 1] == value);
        }
    }
}

/// A plan with one more step performs what it performed, and the action of the step.
pub broadcast proof fn lemma_step_performs(plan: PlanModel, step: StepModel, action: Act)
    ensures
        #[trigger] plan.step(step).performs(action) == (plan.performs(action) || step.action
            == action),
{
    let longer = plan.step(step);
    if plan.performs(action) {
        let i = choose|i: int|
            0 <= i < plan.steps.len() && (#[trigger] plan.steps[i]).action == action;
        assert(longer.steps[i].action == action);
    }
    if step.action == action {
        assert(longer.steps[plan.steps.len() as int].action == action);
    }
    if longer.performs(action) {
        let i = choose|i: int|
            0 <= i < longer.steps.len() && (#[trigger] longer.steps[i]).action == action;
        if i < plan.steps.len() {
            assert(plan.steps[i].action == action);
        }
    }
}

/// A plan with one more step writes what it wrote, and what the step writes.
pub broadcast proof fn lemma_step_writes(
    plan: PlanModel,
    step: StepModel,
    path: Seq<char>,
    part: Seq<char>,
)
    ensures
        #[trigger] plan.step(step).writes(path, part) == (plan.writes(path, part) || is_write(
            step.action,
            path,
            part,
        )),
{
    let longer = plan.step(step);
    if plan.writes(path, part) {
        let i = choose|i: int|
            0 <= i < plan.steps.len() && is_write((#[trigger] plan.steps[i]).action, path, part);
        assert(is_write(longer.steps[i].action, path, part));
    }
    if is_write(step.action, path, part) {
        assert(is_write(longer.steps[plan.steps.len() as int].action, path, part));
    }
    if longer.writes(path, part) {
        let i = choose|i: int|
            0 <= i < longer.steps.len() && is_write((#[trigger] longer.steps[i]).action, path, part);
        if i < plan.steps.len() {
            assert(is_write(plan.steps[i].action, path, part));
        }
    }
}

/// A plan with one more step calls what it called, and what the step calls.
pub broadcast proof fn lemma_step_calls(
    plan: PlanModel,
    step: StepModel,
    program: Seq<char>,
    args: Seq<Seq<char>>,
)
    ensures
        #[trigger] plan.step(step).calls(program, args) == (plan.calls(program, args) || is_call(
            step.action,
            program,
            args,
        )),
{
    let longer = plan.step(step);
    if plan.calls(program, args) {
        let i = choose|i: int|
            0 <= i < plan.steps.len() && is_call((#[trigger] plan.steps[i]).action, program, args);
        assert(is_call(longer.steps[i].action, program, args));
    }
    if is_call(step.action, program, args) {
        assert(is_call(longer.steps[plan.steps.len() as int].action, program, args));
    }
    if longer.calls(program, args) {
        let i = choose|i: int|
            0 <= i < longer.steps.len() && is_call(
                (#[trigger] longer.steps[i]).action,
                program,
                args,
            );
        if i < plan.steps.len() {
            assert(is_call(plan.steps[i].action, program, args));
        }
    }
}

/// A plan with one more step feeds what it fed, and what the step feeds.
pub broadcast proof fn lemma_step_feeds(
    plan: PlanModel,
    step: StepModel,
    program: Seq<char>,
    args: Seq<Seq<char>>,
    given: Seq<char>,
)
    ensures
        #[trigger] plan.step(step).feeds(program, args, given) == (plan.feeds(program, args, given) || is_feed(
            step.action,
            program,
            args,
            given,
        )),
{
    let longer = plan.step(step);
    if plan.feeds(program, args, given) {
        let i = choose|i: int|
            0 <= i < plan.steps.len() && is_feed((#[trigger] plan.steps[i]).action, program, args, given);
        assert(is_feed(longer.steps[i].action, program, args, given));
    }
    if is_feed(step.action, program, args, given) {
        assert(is_feed(longer.steps[plan.steps.len() as int].action, program, args, given));
    }
    if longer.feeds(program, args, given) {
        let i = choose|i: int|
            0 <= i < longer.steps.len() && is_feed(
                (#[trigger] longer.steps[i]).action,
                program,
                args,
                given,
            );
        if i < plan.steps.len() {
            assert(is_feed(plan.steps[i].action, program, args, given));
        }
    }
}

/// A plan with one more step runs what it ran, and what the step runs.
pub broadcast proof fn lemma_step_runs_with(
    plan: PlanModel,
    step: StepModel,
    program: Seq<char>,
    option: Seq<char>,
    value: Seq<char>,
)
    ensures
        #[trigger] plan.step(step).runs_with(program, option, value) == (plan.runs_with(
            program,
            option,
            value,
        ) || is_run_with(step.action, program, option, value)),
{
    let longer = plan.step(step);
    if plan.runs_with(program, option, value) {
        let i = choose|i: int|
            0 <= i < plan.steps.len() && is_run_with(
                (#[trigger] plan.steps[i]).action,
                program,
                option,
                value,
            );
        assert(is_run_with(longer.steps[i].action, program, option, value));
    }
    if is_run_with(step.action, program, option, value) {
        assert(is_run_with(
            longer.steps[plan.steps.len() as int].action,
            program,
            option,
            value,
        ));
    }
    if longer.runs_with(program, option, value) {
        let i = choose|i: int|
            0 <= i < longer.steps.len() && is_run_with(
                (#[trigger] longer.steps[i]).action,
                program,
                option,
                value,
            );
        if i < plan.steps.len() {
            assert(is_run_with(plan.steps[i].action, program, option, value));
        }
    }
}

/// The plan without steps does nothing.
pub broadcast proof fn lemma_nothing_performed(action: Act)
    ensures
        !#[trigger] no_steps().performs(action),
{
}

/// Two plans in a row perform what each of them performs.
pub broadcast proof fn lemma_both_perform(first: PlanModel, second: PlanModel, action: Act)
    ensures
        #[trigger] first.then_all(second).performs(action) == (first.performs(action)
            || second.performs(action)),
{
    let both = first.then_all(second);
    if first.performs(action) {
        let i = choose|i: int|
            0 <= i < first.steps.len() && (#[trigger] first.steps[i]).action == action;
        assert(both.steps[i].action == action);
    }
    if second.performs(action) {
        let i = choose|i: int|
            0 <= i < second.steps.len() && (#[trigger] second.steps[i]).action == action;
        assert(both.steps[first.steps.len() + i].action == action);
    }
    if both.performs(action) {
        let i = choose|i: int|
            0 <= i < both.steps.len() && (#[trigger] both.steps[i]).action == action;
        if i < first.steps.len() {
            assert(first.steps[i].action == action);
        } else {
            assert(second.steps[i - first.steps.len()].action == action);
        }
    }
}

pub broadcast group group_plan_contents {
    lemma_arg_names,
    lemma_arg_has,
    lemma_step_performs,
    lemma_step_writes,
    lemma_step_calls,
    lemma_step_feeds,
    lemma_step_runs_with,
    lemma_nothing_performed,
    lemma_both_perform,
}

} // verus!
