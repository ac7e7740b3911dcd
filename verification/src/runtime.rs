//! The course of a container, from its arguments to its exit code, in each of its processes.
//!
//! The runtime makes a control group and pipes, and parts from the setup process. That joins
//! the group, moves to new namespaces with the help of the runtime, and parts from the first
//! process of the container, which confines itself to the root filesystem and becomes the
//! command. The setup process passes the command's exit code on to the runtime.

use crate::cgroup::{Cgroup, CgroupSettings};
use crate::container::{
    command_line, exec_cmd, execution, first_nul, nul_cause, nul_context, NulError,
};
use crate::creation::{group_path, Creation, Refusal};
use crate::filesystem::{rootfs_failure, RootfsError};
use crate::mapping::Mapping;
use crate::message::{message_views, plain, Message, Piece, PieceView};
use crate::plan::{
    init_work, parent_work, preparation, prepare, run_init, setup_parent, setup_process,
    setup_work, INIT_TASKS, PARENT_TASKS, PREPARATION_TASKS, SETUP_TASKS,
};
use crate::request::{
    answers, is_answered_by, pick_task, system_error, text_views, Failure, FailureView, Reply,
    Request, RequestView, Task,
};
use crate::run_args::{judged, judged_to_run, ArgsError, RunArgs};
use crate::wait::{exit_code, exit_status, WaitStatus};
use vstd::prelude::*;

verus! {

/// The exit code of a process that fails before the command has started.
pub const FAILED_START: u8 = 127;

/// Why a container failed.
#[derive(Clone, Copy, PartialEq, Eq, Structural, Debug)]
pub enum Fault {
    /// The control group was not made.
    Creation(Refusal),
    /// A task failed before the runtime parted from the setup process.
    Prepare { id: u64, at: usize },
    /// There is no setup process.
    ForkSetup,
    /// A task for the setup process failed in the runtime.
    ParentSetup { id: u64, child: i32, at: usize },
    /// The runtime could not wait for the setup process.
    WaitSetup,
    /// The runtime waited for the setup process, and something else than its end was reported.
    SetupStatus(WaitStatus),
    /// A task of the setup process failed.
    Setup { at: usize },
    /// There is no first process of the container.
    ForkInit,
    /// The setup process could not wait for the first process of the container.
    WaitInit,
    /// The setup process waited for the first process of the container, and something else
    /// than its end was reported.
    InitStatus(WaitStatus),
    /// The root filesystem is not a directory.
    NotDirectory,
    /// A task of the first process of the container failed.
    Init { at: usize },
    /// The command line holds a zero byte.
    Nul(NulError),
    /// The command could not be started.
    Execute,
}

/// What a process comes to.
#[derive(Clone, Copy, PartialEq, Eq, Structural, Debug)]
pub enum End {
    /// An exit code.
    Code(u8),
    /// An error.
    Fault(Fault),
}

/// The processes of a container.
#[derive(Clone, Copy, PartialEq, Eq, Structural, Debug)]
pub enum Process {
    /// The one that was started by the user.
    Runtime,
    /// The one that joins the control group and moves to new namespaces.
    Setup,
    /// The first one inside the container.
    Init,
}

/// What error messages call the processes.
#[derive(Clone, Copy, PartialEq, Eq, Structural, Debug)]
pub enum Naming {
    /// What they are there for.
    ByRole,
    /// The steps of the program that they begin with.
    ByStep,
}

impl Naming {
    /// What stands before an error of a process other than the runtime.
    pub open spec fn banner(self, process: Process) -> Seq<char> {
        match (self, process is Setup) {
            (Naming::ByRole, true) => "container-runtime: setup process failed: "@,
            (Naming::ByRole, false) => "container-runtime: container init failed: "@,
            (Naming::ByStep, true) => "container-runtime: setup_child failed: "@,
            (Naming::ByStep, false) => "container-runtime: child_main failed: "@,
        }
    }

    /// What stands before a status of the first process of the container that does not say how
    /// it ended.
    pub open spec fn init_status(self) -> Seq<char> {
        match self {
            Naming::ByRole => "unexpected wait status: "@,
            Naming::ByStep => "unexpected wait status for init: "@,
        }
    }

    fn show_banner(self, process: Process) -> (res: &'static str)
        ensures
            res@ == self.banner(process),
    {
        match (self, process) {
            (Naming::ByRole, Process::Setup) => "container-runtime: setup process failed: ",
            (Naming::ByRole, _) => "container-runtime: container init failed: ",
            (Naming::ByStep, Process::Setup) => "container-runtime: setup_child failed: ",
            (Naming::ByStep, _) => "container-runtime: child_main failed: ",
        }
    }

    fn show_init_status(self) -> (res: &'static str)
        ensures
            res@ == self.init_status(),
    {
        match self {
            Naming::ByRole => "unexpected wait status: ",
            Naming::ByStep => "unexpected wait status for init: ",
        }
    }
}

/// How far a process has come.
#[derive(Clone, Copy, PartialEq, Eq, Structural, Debug)]
pub enum Phase {
    /// The runtime makes the control group.
    Creating { creation: Creation },
    /// The runtime limits the group and makes the pipes.
    Preparing { id: u64, at: usize },
    /// The runtime parts from the setup process.
    ForkingSetup { id: u64 },
    /// The runtime works for the setup process.
    Parent { id: u64, child: i32, at: usize },
    /// The runtime ends the setup process, after a task failed.
    Killing { id: u64, child: i32, at: usize },
    /// The runtime waits for the setup process that it ended.
    Reaping { id: u64, child: i32, at: usize },
    /// The runtime waits for the setup process.
    WaitingForSetup { id: u64, child: i32 },
    /// The runtime removes the group.
    Removing { id: u64, end: End },
    /// The setup process does its tasks.
    Setup { at: usize },
    /// The setup process parts from the first process of the container.
    ForkingInit,
    /// The setup process waits for the first process of the container.
    WaitingForInit { child: i32 },
    /// The first process of the container does its tasks.
    Init { at: usize },
    /// The first process of the container becomes the command.
    Executing,
    /// The process has come to its end.
    Over { process: Process, end: End },
}

/// What a process is to do next.
#[derive(Debug, PartialEq, Eq)]
pub enum Turn {
    /// Ask something of the system, and go on with the reply.
    Perform(Request),
    /// Hand an exit code to the user.
    Return(u8),
    /// Report an error to the user.
    Fail(Failure),
    /// Exit at once with a code.
    Exit(u8),
    /// Print the banner and the error on one line, and exit at once with the code.
    Abort { banner: &'static str, failure: Failure, code: u8 },
}

/// What a turn holds.
#[verifier::ext_equal]
pub enum TurnView {
    Perform(RequestView),
    Return(u8),
    Fail(FailureView),
    Exit(u8),
    Abort { banner: Seq<char>, failure: FailureView, code: u8 },
}

impl View for Turn {
    type V = TurnView;

    open spec fn view(&self) -> TurnView {
        match self {
            Turn::Perform(request) => TurnView::Perform(request@),
            Turn::Return(code) => TurnView::Return(*code),
            Turn::Fail(failure) => TurnView::Fail(failure@),
            Turn::Exit(code) => TurnView::Exit(*code),
            Turn::Abort { banner, failure, code } => TurnView::Abort {
                banner: banner@,
                failure: failure@,
                code: *code,
            },
        }
    }
}

impl RunArgs {
    /// The command line of the container.
    pub open spec fn line(self) -> Seq<Seq<char>> {
        command_line(self.cmd@, text_views(self.args@))
    }

    /// How the root of the container is mapped for a process.
    pub open spec fn mapping(self, child: i32) -> Mapping {
        Mapping { process_id: child, host_uid: self.uid, host_gid: self.gid }
    }
}

/// An error that is a status, with the words before it.
pub open spec fn status_error(words: Seq<char>, status: WaitStatus) -> FailureView {
    FailureView {
        cause: Some(seq![PieceView::Text(words), PieceView::Status(status)]),
        contexts: seq![],
    }
}

impl Fault {
    /// The task that failed is one of those that there are.
    pub open spec fn wf(self) -> bool {
        match self {
            Fault::Prepare { at, .. } => at < PREPARATION_TASKS,
            Fault::ParentSetup { at, .. } => at < PARENT_TASKS,
            Fault::Setup { at } => at < SETUP_TASKS,
            Fault::Init { at } => at < INIT_TASKS,
            _ => true,
        }
    }

    /// What is said of the fault.
    pub open spec fn explanation(
        self,
        args: RunArgs,
        settings: CgroupSettings,
        naming: Naming,
    ) -> FailureView {
        match self {
            Fault::Creation(refusal) => refusal.explanation(),
            Fault::Prepare { id, at } => system_error(
                preparation(group_path(id), settings)[at as int].contexts,
            ),
            Fault::ForkSetup => system_error(seq![plain("fork failed"@)]),
            Fault::ParentSetup { id, child, at } => system_error(
                parent_work(group_path(id), args.mapping(child))[at as int].contexts.push(
                    plain("container setup failed; child killed"@),
                ),
            ),
            Fault::WaitSetup => system_error(seq![plain("waitpid failed"@)]),
            Fault::SetupStatus(status) => status_error("unexpected wait status: "@, status),
            Fault::Setup { at } => system_error(setup_work()[at as int].contexts),
            Fault::ForkInit => system_error(seq![plain("fork (setup) failed"@)]),
            Fault::WaitInit => system_error(seq![plain("waitpid(child) failed"@)]),
            Fault::InitStatus(status) => status_error(naming.init_status(), status),
            Fault::NotDirectory => rootfs_failure(args.rootfs@),
            Fault::Init { at } => system_error(init_work(args.rootfs@)[at as int].contexts),
            Fault::Nul(error) => FailureView {
                cause: Some(nul_cause(error)),
                contexts: seq![nul_context(error)],
            },
            Fault::Execute => system_error(
                execution(args.cmd@, text_views(args.args@)).contexts,
            ),
        }
    }
}

impl End {
    /// The fault, if it is one, is one that there is.
    pub open spec fn wf(self) -> bool {
        self matches End::Fault(fault) ==> fault.wf()
    }
}

/// What the end of a child comes to for the process that waited for it, the setup process or
/// the runtime.
pub open spec fn outcome(reply: Reply, waiter: Process) -> End {
    match reply {
        Reply::Waited(status) => match exit_code(status) {
            Some(code) => End::Code(code as u8),
            None => End::Fault(
                if waiter is Setup {
                    Fault::InitStatus(status)
                } else {
                    Fault::SetupStatus(status)
                },
            ),
        },
        _ => End::Fault(
            if waiter is Setup {
                Fault::WaitInit
            } else {
                Fault::WaitSetup
            },
        ),
    }
}

impl Phase {
    /// The phase is one that a container with the command line can be in.
    pub open spec fn wf(self, line: Seq<Seq<char>>) -> bool {
        match self {
            Phase::Creating { creation } => creation.asks() is Some,
            Phase::Preparing { at, .. } => at < PREPARATION_TASKS,
            Phase::Parent { at, .. } => at < PARENT_TASKS,
            Phase::Killing { at, .. } => at < PARENT_TASKS,
            Phase::Reaping { at, .. } => at < PARENT_TASKS,
            Phase::Removing { end, .. } => end.wf(),
            Phase::Setup { at } => at < SETUP_TASKS,
            Phase::Init { at } => at < INIT_TASKS,
            Phase::Executing => first_nul(line) is None,
            Phase::Over { end, .. } => end.wf(),
            _ => true,
        }
    }

    /// The process that is in the phase.
    pub open spec fn process(self) -> Process {
        match self {
            Phase::Setup { .. } => Process::Setup,
            Phase::ForkingInit => Process::Setup,
            Phase::WaitingForInit { .. } => Process::Setup,
            Phase::Init { .. } => Process::Init,
            Phase::Executing => Process::Init,
            Phase::Over { process, .. } => process,
            _ => Process::Runtime,
        }
    }

    /// What the system is asked for in the phase.
    pub open spec fn asks(self, args: RunArgs, settings: CgroupSettings) -> Option<RequestView> {
        match self {
            Phase::Creating { creation } => creation.asks(),
            Phase::Preparing { id, at } => Some(
                preparation(group_path(id), settings)[at as int].request,
            ),
            Phase::ForkingSetup { .. } => Some(RequestView::Fork),
            Phase::Parent { id, child, at } => Some(
                parent_work(group_path(id), args.mapping(child))[at as int].request,
            ),
            Phase::Killing { child, .. } => Some(RequestView::Kill(child)),
            Phase::Reaping { child, .. } => Some(RequestView::Wait(child)),
            Phase::WaitingForSetup { child, .. } => Some(RequestView::Wait(child)),
            Phase::Removing { id, .. } => Some(RequestView::RemoveDir(group_path(id))),
            Phase::Setup { at } => Some(setup_work()[at as int].request),
            Phase::ForkingInit => Some(RequestView::Fork),
            Phase::WaitingForInit { child } => Some(RequestView::Wait(child)),
            Phase::Init { at } => Some(init_work(args.rootfs@)[at as int].request),
            Phase::Executing => Some(execution(args.cmd@, text_views(args.args@)).request),
            Phase::Over { .. } => None,
        }
    }

    /// The reply is one that the system can give in the phase.
    pub open spec fn expects(self, args: RunArgs, settings: CgroupSettings, reply: Reply) -> bool {
        self.asks(args, settings) matches Some(request) && answers(request, reply)
    }

    /// What the process is to do in the phase.
    pub open spec fn turn(
        self,
        args: RunArgs,
        settings: CgroupSettings,
        naming: Naming,
    ) -> TurnView {
        match self {
            Phase::Over { process, end } => match (process, end) {
                (Process::Runtime, End::Code(code)) => TurnView::Return(code),
                (Process::Runtime, End::Fault(fault)) => TurnView::Fail(
                    fault.explanation(args, settings, naming),
                ),
                (_, End::Code(code)) => TurnView::Exit(code),
                (_, End::Fault(fault)) => TurnView::Abort {
                    banner: naming.banner(process),
                    failure: fault.explanation(args, settings, naming),
                    code: FAILED_START,
                },
            },
            _ => TurnView::Perform(self.asks(args, settings)->0),
        }
    }

    /// The phase after a reply, for a container with the command line. `root` and `new_id` are
    /// what the making of the group goes by.
    pub open spec fn after(
        self,
        line: Seq<Seq<char>>,
        reply: Reply,
        root: bool,
        new_id: u64,
    ) -> Phase {
        match self {
            Phase::Creating { creation } => match creation.after(reply, root, new_id) {
                Creation::Created { id } => Phase::Preparing { id, at: 0 },
                Creation::Refused { refusal } => Phase::Over {
                    process: Process::Runtime,
                    end: End::Fault(Fault::Creation(refusal)),
                },
                next => Phase::Creating { creation: next },
            },
            Phase::Preparing { id, at } => if reply is Failed {
                Phase::Removing { id, end: End::Fault(Fault::Prepare { id, at }) }
            } else if at + 1 < PREPARATION_TASKS {
                Phase::Preparing { id, at: (at + 1) as usize }
            } else {
                Phase::ForkingSetup { id }
            },
            Phase::ForkingSetup { id } => match reply {
                Reply::Parent { child } => Phase::Parent { id, child, at: 0 },
                Reply::Child => Phase::Setup { at: 0 },
                _ => Phase::Removing { id, end: End::Fault(Fault::ForkSetup) },
            },
            Phase::Parent { id, child, at } => if reply is Failed {
                Phase::Killing { id, child, at }
            } else if at + 1 < PARENT_TASKS {
                Phase::Parent { id, child, at: (at + 1) as usize }
            } else {
                Phase::WaitingForSetup { id, child }
            },
            Phase::Killing { id, child, at } => Phase::Reaping { id, child, at },
            Phase::Reaping { id, child, at } => Phase::Removing {
                id,
                end: End::Fault(Fault::ParentSetup { id, child, at }),
            },
            Phase::WaitingForSetup { id, .. } => Phase::Removing {
                id,
                end: outcome(reply, Process::Runtime),
            },
            Phase::Removing { end, .. } => Phase::Over { process: Process::Runtime, end },
            Phase::Setup { at } => if reply is Failed {
                Phase::Over { process: Process::Setup, end: End::Fault(Fault::Setup { at }) }
            } else if at + 1 < SETUP_TASKS {
                Phase::Setup { at: (at + 1) as usize }
            } else {
                Phase::ForkingInit
            },
            Phase::ForkingInit => match reply {
                Reply::Parent { child } => Phase::WaitingForInit { child },
                Reply::Child => Phase::Init { at: 0 },
                _ => Phase::Over { process: Process::Setup, end: End::Fault(Fault::ForkInit) },
            },
            Phase::WaitingForInit { .. } => Phase::Over {
                process: Process::Setup,
                end: outcome(reply, Process::Setup),
            },
            Phase::Init { at } => if reply is Failed {
                Phase::Over { process: Process::Init, end: End::Fault(Fault::Init { at }) }
            } else if reply == Reply::Answer(false) {
                Phase::Over { process: Process::Init, end: End::Fault(Fault::NotDirectory) }
            } else if at + 1 < INIT_TASKS {
                Phase::Init { at: (at + 1) as usize }
            } else {
                match first_nul(line) {
                    None => Phase::Executing,
                    Some(error) => Phase::Over {
                        process: Process::Init,
                        end: End::Fault(Fault::Nul(error)),
                    },
                }
            },
            Phase::Executing => Phase::Over {
                process: Process::Init,
                end: End::Fault(Fault::Execute),
            },
            Phase::Over { .. } => self,
        }
    }
}

/// A container, as one of its processes sees it.
#[derive(Debug, PartialEq, Eq)]
pub struct Runtime {
    pub args: RunArgs,
    pub settings: CgroupSettings,
    pub naming: Naming,
    pub phase: Phase,
}

/// A container before anything has been done for it.
pub open spec fn fresh(runtime: Runtime, args: RunArgs, naming: Naming) -> bool {
    &&& runtime.wf()
    &&& runtime.args == args
    &&& runtime.naming == naming
    &&& runtime.phase == (Phase::Creating { creation: Creation::FindMarker })
}

/// The outcome is the right one on a host: a container at its beginning, with the limits that
/// its arguments come to, or what speaks against it.
pub open spec fn begun(
    args: RunArgs,
    rootfs_is_directory: bool,
    host_cpus: usize,
    outcome: Result<Runtime, ArgsError>,
) -> bool {
    match outcome {
        Ok(runtime) => {
            &&& fresh(runtime, args, Naming::ByRole)
            &&& judged(args, rootfs_is_directory, host_cpus, Ok(runtime.settings))
        },
        Err(error) => judged(args, rootfs_is_directory, host_cpus, Err(error)),
    }
}

/// The outcome is the right one on a host where the container is run at once. Error messages
/// of the container go by the steps of the program.
pub open spec fn begun_by_run(
    args: RunArgs,
    rootfs_is_directory: bool,
    host_cpus: usize,
    outcome: Result<Runtime, ArgsError>,
) -> bool {
    match outcome {
        Ok(runtime) => {
            &&& fresh(runtime, args, Naming::ByStep)
            &&& judged_to_run(args, rootfs_is_directory, host_cpus, Ok(runtime.settings))
        },
        Err(error) => judged_to_run(args, rootfs_is_directory, host_cpus, Err(error)),
    }
}

fn one_context(text: &str) -> (res: Failure)
    ensures
        res@ == system_error(seq![plain(text@)]),
{
    let mut contexts: Vec<Message> = Vec::new();
    contexts.push(Message::text(text));
    assert(message_views(contexts@) =~= seq![plain(text@)]);
    Failure::of_system(contexts)
}

fn waited(reply: &Reply, waiter: Process) -> (res: End)
    requires
        reply matches Reply::Waited(status) ==> status.valid(),
    ensures
        res == outcome(*reply, waiter),
{
    let of_init: bool = match waiter {
        Process::Setup => true,
        _ => false,
    };
    match reply {
        Reply::Waited(status) => match exit_status(*status) {
            Ok(code) => End::Code(code),
            Err(error) => if of_init {
                End::Fault(Fault::InitStatus(error.status))
            } else {
                End::Fault(Fault::SetupStatus(error.status))
            },
        },
        _ => if of_init {
            End::Fault(Fault::WaitInit)
        } else {
            End::Fault(Fault::WaitSetup)
        },
    }
}

fn unexpected(words: &str, status: WaitStatus) -> (res: Failure)
    ensures
        res@ == status_error(words@, status),
{
    let cause: Message = Message::text(words).with(Piece::Status(status));
    assert(cause@ =~= seq![PieceView::Text(words@), PieceView::Status(status)]);
    Failure::of_runtime(cause)
}

impl Runtime {
    /// The phase is one that a container with these arguments can be in.
    pub open spec fn wf(self) -> bool {
        self.phase.wf(self.args.line())
    }

    /// A container that may be run on this host, before anything has been done for it, or what
    /// speaks against it.
    pub fn new(args: RunArgs, rootfs_is_directory: bool) -> (res: Result<Runtime, ArgsError>)
        ensures
            exists|host_cpus: usize|
                host_cpus >= 1 && #[trigger] begun(args, rootfs_is_directory, host_cpus, res),
    {
        let verdict: Result<CgroupSettings, ArgsError> = args.validate(rootfs_is_directory);
        let ghost host_cpus = choose|host_cpus: usize|
            host_cpus >= 1 && #[trigger] judged(args, rootfs_is_directory, host_cpus, verdict);
        match verdict {
            Ok(settings) => {
                let phase: Phase = Phase::Creating { creation: Cgroup::new() };
                let res: Result<Runtime, ArgsError> = Ok(
                    Runtime { args, settings, naming: Naming::ByRole, phase },
                );
                assert(begun(args, rootfs_is_directory, host_cpus, res));
                res
            },
            Err(error) => {
                let res: Result<Runtime, ArgsError> = Err(error);
                assert(begun(args, rootfs_is_directory, host_cpus, res));
                res
            },
        }
    }

    fn mapping(&self, child: i32) -> (res: Mapping)
        ensures
            res == self.args.mapping(child),
    {
        Mapping::new(child, self.args.uid, self.args.gid)
    }

    fn parent_task(&self, id: u64, child: i32, at: usize) -> (res: Task)
        requires
            at < PARENT_TASKS,
        ensures
            res@ == parent_work(group_path(id), self.args.mapping(child))[at as int],
    {
        pick_task(setup_parent(&Cgroup::named(id), &self.mapping(child)), at)
    }

    fn preparation_task(&self, id: u64, at: usize) -> (res: Task)
        requires
            at < PREPARATION_TASKS,
        ensures
            res@ == preparation(group_path(id), self.settings)[at as int],
    {
        pick_task(prepare(&Cgroup::named(id), &self.settings), at)
    }

    /// What is said of a fault.
    pub fn explain(&self, fault: Fault) -> (res: Failure)
        requires
            fault.wf(),
        ensures
            res@ == fault.explanation(self.args, self.settings, self.naming),
    {
        match fault {
            Fault::Creation(refusal) => refusal.explain(),
            Fault::Prepare { id, at } => self.preparation_task(id, at).failure(),
            Fault::ForkSetup => one_context("fork failed"),
            Fault::ParentSetup { id, child, at } => self.parent_task(id, child, at).within(
                Message::text("container setup failed; child killed"),
            ).failure(),
            Fault::WaitSetup => one_context("waitpid failed"),
            Fault::SetupStatus(status) => unexpected("unexpected wait status: ", status),
            Fault::Setup { at } => pick_task(setup_process(), at).failure(),
            Fault::ForkInit => one_context("fork (setup) failed"),
            Fault::WaitInit => one_context("waitpid(child) failed"),
            Fault::InitStatus(status) => unexpected(self.naming.show_init_status(), status),
            Fault::NotDirectory => {
                let error: RootfsError = RootfsError { rootfs: self.args.rootfs.clone() };
                error.failure()
            },
            Fault::Init { at } => pick_task(run_init(&self.args.rootfs), at).failure(),
            Fault::Nul(error) => {
                let mut contexts: Vec<Message> = Vec::new();
                contexts.push(error.context());
                assert(message_views(contexts@) =~= seq![nul_context(error)]);
                Failure { cause: Some(error.cause()), contexts }
            },
            Fault::Execute => {
                let mut contexts: Vec<Message> = Vec::new();
                contexts.push(
                    Message::text("exec ").with(
                        Piece::QuotedText(String::from_str(self.args.cmd.as_str())),
                    ),
                );
                proof {
                    let given = execution(self.args.cmd@, text_views(self.args.args@)).contexts;
                    assert(contexts@[0]@ =~= given[0]);
                    assert(message_views(contexts@) =~= given);
                }
                Failure::of_system(contexts)
            },
        }
    }

    /// What the process is to do now.
    pub fn turn(&self) -> (res: Turn)
        requires
            self.wf(),
        ensures
            res@ == self.phase.turn(self.args, self.settings, self.naming),
    {
        let request: Request = match self.phase {
            Phase::Creating { creation } => creation.request().unwrap(),
            Phase::Preparing { id, at } => self.preparation_task(id, at).request,
            Phase::ForkingSetup { .. } => Request::Fork,
            Phase::Parent { id, child, at } => self.parent_task(id, child, at).request,
            Phase::Killing { child, .. } => Request::Kill(child),
            Phase::Reaping { child, .. } => Request::Wait(child),
            Phase::WaitingForSetup { child, .. } => Request::Wait(child),
            Phase::Removing { id, .. } => Cgroup::named(id).remove(),
            Phase::Setup { at } => pick_task(setup_process(), at).request,
            Phase::ForkingInit => Request::Fork,
            Phase::WaitingForInit { child } => Request::Wait(child),
            Phase::Init { at } => pick_task(run_init(&self.args.rootfs), at).request,
            Phase::Executing => exec_cmd(
                self.args.cmd.as_str(),
                &self.args.args,
            ).unwrap().request,
            Phase::Over { process, end } => {
                return self.conclude(process, end);
            },
        };
        Turn::Perform(request)
    }

    fn conclude(&self, process: Process, end: End) -> (res: Turn)
        requires
            end.wf(),
        ensures
            res@ == (Phase::Over { process, end }).turn(self.args, self.settings, self.naming),
    {
        match end {
            End::Code(code) => match process {
                Process::Runtime => Turn::Return(code),
                _ => Turn::Exit(code),
            },
            End::Fault(fault) => {
                let failure: Failure = self.explain(fault);
                match process {
                    Process::Runtime => Turn::Fail(failure),
                    _ => Turn::Abort {
                        banner: self.naming.show_banner(process),
                        failure,
                        code: FAILED_START,
                    },
                }
            },
        }
    }

    /// Tells whether the reply is one that the system can give now.
    pub fn is_answered_by(&self, reply: &Reply) -> (res: bool)
        requires
            self.wf(),
        ensures
            res == self.phase.expects(self.args, self.settings, *reply),
    {
        match self.turn() {
            Turn::Perform(request) => is_answered_by(&request, reply),
            _ => false,
        }
    }

    /// Goes on after a reply.
    pub fn advance(&mut self, reply: &Reply, root: bool, new_id: u64)
        requires
            old(self).wf(),
            old(self).phase.expects(old(self).args, old(self).settings, *reply),
        ensures
            final(self).wf(),
            final(self).args == old(self).args,
            final(self).settings == old(self).settings,
            final(self).naming == old(self).naming,
            final(self).phase == old(self).phase.after(old(self).args.line(), *reply, root, new_id),
    {
        let failed: bool = match reply {
            Reply::Failed => true,
            _ => false,
        };
        let phase: Phase = match self.phase {
            Phase::Creating { creation } => match creation.advance(reply, root, new_id) {
                Creation::Created { id } => Phase::Preparing { id, at: 0 },
                Creation::Refused { refusal } => Phase::Over {
                    process: Process::Runtime,
                    end: End::Fault(Fault::Creation(refusal)),
                },
                next => Phase::Creating { creation: next },
            },
            Phase::Preparing { id, at } => if failed {
                Phase::Removing { id, end: End::Fault(Fault::Prepare { id, at }) }
            } else if at + 1 < PREPARATION_TASKS {
                Phase::Preparing { id, at: at + 1 }
            } else {
                Phase::ForkingSetup { id }
            },
            Phase::ForkingSetup { id } => match reply {
                Reply::Parent { child } => Phase::Parent { id, child: *child, at: 0 },
                Reply::Child => Phase::Setup { at: 0 },
                _ => Phase::Removing { id, end: End::Fault(Fault::ForkSetup) },
            },
            Phase::Parent { id, child, at } => if failed {
                Phase::Killing { id, child, at }
            } else if at + 1 < PARENT_TASKS {
                Phase::Parent { id, child, at: at + 1 }
            } else {
                Phase::WaitingForSetup { id, child }
            },
            Phase::Killing { id, child, at } => Phase::Reaping { id, child, at },
            Phase::Reaping { id, child, at } => Phase::Removing {
                id,
                end: End::Fault(Fault::ParentSetup { id, child, at }),
            },
            Phase::WaitingForSetup { id, .. } => Phase::Removing {
                id,
                end: waited(reply, Process::Runtime),
            },
            Phase::Removing { end, .. } => Phase::Over { process: Process::Runtime, end },
            Phase::Setup { at } => if failed {
                Phase::Over { process: Process::Setup, end: End::Fault(Fault::Setup { at }) }
            } else if at + 1 < SETUP_TASKS {
                Phase::Setup { at: at + 1 }
            } else {
                Phase::ForkingInit
            },
            Phase::ForkingInit => match reply {
                Reply::Parent { child } => Phase::WaitingForInit { child: *child },
                Reply::Child => Phase::Init { at: 0 },
                _ => Phase::Over { process: Process::Setup, end: End::Fault(Fault::ForkInit) },
            },
            Phase::WaitingForInit { .. } => Phase::Over {
                process: Process::Setup,
                end: waited(reply, Process::Setup),
            },
            Phase::Init { at } => self.after_init_task(at, reply),
            Phase::Executing => Phase::Over {
                process: Process::Init,
                end: End::Fault(Fault::Execute),
            },
            Phase::Over { .. } => self.phase,
        };
        self.phase = phase;
    }

    /// Goes on after a reply, in this process and with a fresh name for the control group.
    pub fn run(&mut self, reply: &Reply)
        requires
            old(self).wf(),
            old(self).phase.expects(old(self).args, old(self).settings, *reply),
        ensures
            final(self).wf(),
            final(self).args == old(self).args,
            final(self).settings == old(self).settings,
            final(self).naming == old(self).naming,
            exists|root: bool, new_id: u64|
                final(self).phase == #[trigger] old(self).phase.after(
                    old(self).args.line(),
                    *reply,
                    root,
                    new_id,
                ),
    {
        let (root, new_id): (bool, u64) = match self.phase {
            Phase::Creating { creation } => creation.circumstances(),
            _ => (false, 0),
        };
        self.advance(reply, root, new_id)
    }

    fn after_init_task(&self, at: usize, reply: &Reply) -> (res: Phase)
        requires
            at < INIT_TASKS,
        ensures
            res.wf(self.args.line()),
            forall|root: bool, new_id: u64|
                res == (Phase::Init { at }).after(self.args.line(), *reply, root, new_id),
    {
        match reply {
            Reply::Failed => Phase::Over {
                process: Process::Init,
                end: End::Fault(Fault::Init { at }),
            },
            Reply::Answer(false) => Phase::Over {
                process: Process::Init,
                end: End::Fault(Fault::NotDirectory),
            },
            _ => if at + 1 < INIT_TASKS {
                Phase::Init { at: at + 1 }
            } else {
                match exec_cmd(self.args.cmd.as_str(), &self.args.args) {
                    Ok(_) => Phase::Executing,
                    Err(error) => Phase::Over {
                        process: Process::Init,
                        end: End::Fault(Fault::Nul(error)),
                    },
                }
            },
        }
    }
}

/// Begins to run a container on this host, unless something speaks against it.
pub fn run(args: RunArgs, rootfs_is_directory: bool) -> (res: Result<Runtime, ArgsError>)
    ensures
        exists|host_cpus: usize|
            host_cpus >= 1 && #[trigger] begun_by_run(args, rootfs_is_directory, host_cpus, res),
{
    let verdict: Result<CgroupSettings, ArgsError> = args.accept(rootfs_is_directory);
    let ghost host_cpus = choose|host_cpus: usize|
        host_cpus >= 1 && #[trigger] judged_to_run(args, rootfs_is_directory, host_cpus, verdict);
    match verdict {
        Ok(settings) => {
            let phase: Phase = Phase::Creating { creation: Cgroup::new() };
            let res: Result<Runtime, ArgsError> = Ok(
                Runtime { args, settings, naming: Naming::ByStep, phase },
            );
            assert(begun_by_run(args, rootfs_is_directory, host_cpus, res));
            res
        },
        Err(error) => {
            let res: Result<Runtime, ArgsError> = Err(error);
            assert(begun_by_run(args, rootfs_is_directory, host_cpus, res));
            res
        },
    }
}

} // verus!
