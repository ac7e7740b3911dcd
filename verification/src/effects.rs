//! What the processes of a container do to the system, and what they say, in terms of what the
//! container was started with.

use crate::cgroup::{
    given_processes_join, group_errors_name_their_files, limits_are_spelled_out, spells_number,
    CgroupSettings,
};
use crate::container::{first_nul, nul_cause, nul_context, NulError};
use crate::creation::{group_path, Creation, Refusal};
use crate::filesystem::isolation;
use crate::mapping::{
    is_file_of_process, maps_root_to, root_is_mapped_to_the_given_ids, Mapping,
};
use crate::message::PieceView;
use crate::path::joined;
use crate::plan::parent_work;
use crate::request::{
    grants, text_views, Channel, FailureView, Namespaces, Reply, RequestView,
};
use crate::run_args::{judged, judged_to_run, ArgsError, RunArgs};
use crate::runtime::{
    begun, begun_by_run, End, Fault, Naming, Phase, Process, Runtime, TurnView,
};
use crate::text::{numbers_are_spelled, signed_decimal, spells_signed};
use crate::wait::WaitStatus;
use vstd::prelude::*;
use vstd::utf8::encode_utf8;

verus! {

/// The runtime limits the group of the container to the limits that it has, each spelled out in
/// the file for it, and then makes the three pipes.
pub proof fn groups_get_the_limits(args: RunArgs, settings: CgroupSettings, id: u64)
    ensures
        (Phase::Preparing { id, at: 0 }).asks(args, settings) matches Some(
            RequestView::Write(path, text),
        ) && {
            &&& path == joined(group_path(id), encode_utf8("cpu.max"@))
            &&& text.len() > 7
            &&& spells_number(text.take(text.len() - 7), settings.cpu_quota_us)
            &&& text.skip(text.len() - 7) == seq![' ', '1', '0', '0', '0', '0', '0']
        },
        (Phase::Preparing { id, at: 1 }).asks(args, settings) matches Some(
            RequestView::Write(path, text),
        ) && {
            &&& path == joined(group_path(id), encode_utf8("memory.max"@))
            &&& spells_number(text, settings.memory_max)
        },
        (Phase::Preparing { id, at: 2 }).asks(args, settings) matches Some(
            RequestView::Write(path, text),
        ) && {
            &&& path == joined(group_path(id), encode_utf8("pids.max"@))
            &&& spells_number(text, settings.pids_max)
        },
        (Phase::Preparing { id, at: 3 }).asks(args, settings) == Some(
            RequestView::OpenPipe(Channel::Cgroup),
        ),
        (Phase::Preparing { id, at: 4 }).asks(args, settings) == Some(
            RequestView::OpenPipe(Channel::UserNamespace),
        ),
        (Phase::Preparing { id, at: 5 }).asks(args, settings) == Some(
            RequestView::OpenPipe(Channel::Mapping),
        ),
{
    limits_are_spelled_out(group_path(id), settings);
}

/// The runtime lets the very process that it parted from join the group of the container, and
/// maps root in it to the user and the group of the host that the container was started with.
#[verifier::rlimit(50)]
pub proof fn children_get_the_given_ids(
    args: RunArgs,
    settings: CgroupSettings,
    id: u64,
    child: i32,
)
    ensures
        (Phase::Parent { id, child, at: 0 }).asks(args, settings) == Some(
            RequestView::KeepParentEnds,
        ),
        (Phase::Parent { id, child, at: 1 }).asks(args, settings) matches Some(
            RequestView::Write(path, text),
        ) && {
            &&& path == joined(group_path(id), encode_utf8("cgroup.procs"@))
            &&& spells_signed(text, child as int)
        },
        (Phase::Parent { id, child, at: 2 }).asks(args, settings) == Some(
            RequestView::Send(Channel::Cgroup),
        ),
        (Phase::Parent { id, child, at: 3 }).asks(args, settings) == Some(
            RequestView::Receive(Channel::UserNamespace),
        ),
        (Phase::Parent { id, child, at: 4 }).asks(args, settings) matches Some(
            RequestView::Write(path, text),
        ) && is_file_of_process(path, child, "uid_map"@) && maps_root_to(text, args.uid),
        (Phase::Parent { id, child, at: 5 }).asks(args, settings) matches Some(
            RequestView::Write(path, text),
        ) && is_file_of_process(path, child, "setgroups"@) && text == seq![
            'd',
            'e',
            'n',
            'y',
            '\n',
        ],
        (Phase::Parent { id, child, at: 6 }).asks(args, settings) matches Some(
            RequestView::Write(path, text),
        ) && is_file_of_process(path, child, "gid_map"@) && maps_root_to(text, args.gid),
        (Phase::Parent { id, child, at: 7 }).asks(args, settings) == Some(
            RequestView::Send(Channel::Mapping),
        ),
{
    given_processes_join(group_path(id), child);
    root_is_mapped_to_the_given_ids(
        Mapping { process_id: child, host_uid: args.uid, host_gid: args.gid },
    );
    let mapping = args.mapping(child);
    assert(mapping == (Mapping { process_id: child, host_uid: args.uid, host_gid: args.gid }));
    let work = parent_work(group_path(id), mapping);
    assert(work[4].request == mapping.tasks()[0].request);
    assert(work[5].request == mapping.tasks()[1].request);
    assert(work[6].request == mapping.tasks()[2].request);
}

/// The setup process waits for its group, moves to a user namespace and says so, waits for its
/// IDs, and moves to the other namespaces.
pub proof fn setup_follows_the_signals(args: RunArgs, settings: CgroupSettings)
    ensures
        (Phase::Setup { at: 0 }).asks(args, settings) == Some(RequestView::KeepChildEnds),
        (Phase::Setup { at: 1 }).asks(args, settings) == Some(
            RequestView::Receive(Channel::Cgroup),
        ),
        (Phase::Setup { at: 2 }).asks(args, settings) == Some(
            RequestView::Unshare(Namespaces::User),
        ),
        (Phase::Setup { at: 3 }).asks(args, settings) == Some(
            RequestView::Send(Channel::UserNamespace),
        ),
        (Phase::Setup { at: 4 }).asks(args, settings) == Some(
            RequestView::Receive(Channel::Mapping),
        ),
        (Phase::Setup { at: 5 }).asks(args, settings) == Some(
            RequestView::Unshare(Namespaces::PidAndNetwork),
        ),
{
}

/// The first process of the container isolates the root filesystem that the container was
/// started with, becomes root, and then the command, with all the arguments that were given.
#[verifier::rlimit(50)]
pub proof fn containers_become_the_given_command(
    args: RunArgs,
    settings: CgroupSettings,
    at: usize,
)
    ensures
        at < 11 ==> (Phase::Init { at }).asks(args, settings) == Some(
            isolation(args.rootfs@)[at as int].request,
        ),
        (Phase::Init { at: 11 }).asks(args, settings) == Some(RequestView::SetGid(0)),
        (Phase::Init { at: 12 }).asks(args, settings) == Some(RequestView::SetUid(0)),
        Phase::Executing.asks(args, settings) matches Some(
            RequestView::Execute { program, argv },
        ) && {
            &&& program == args.cmd@
            &&& argv.len() == args.args@.len() + 1
            &&& argv[0] == args.cmd@
            &&& forall|i: int|
                0 <= i < args.args@.len() ==> argv[i + 1] == #[trigger] args.args@[i]@
        },
{
    assert forall|i: int| 0 <= i < args.args@.len() implies args.line()[i + 1]
        == #[trigger] args.args@[i]@ by {
        assert(text_views(args.args@)[i] == args.args@[i]@);
    }
}

/// Processes are ended and waited for by their own numbers, and groups are removed by theirs.
pub proof fn processes_and_groups_are_not_mixed_up(
    args: RunArgs,
    settings: CgroupSettings,
    id: u64,
    child: i32,
    at: usize,
    end: End,
)
    ensures
        (Phase::ForkingSetup { id }).asks(args, settings) == Some(RequestView::Fork),
        Phase::ForkingInit.asks(args, settings) == Some(RequestView::Fork),
        (Phase::Killing { id, child, at }).asks(args, settings) == Some(RequestView::Kill(child)),
        (Phase::Reaping { id, child, at }).asks(args, settings) == Some(RequestView::Wait(child)),
        (Phase::WaitingForSetup { id, child }).asks(args, settings) == Some(
            RequestView::Wait(child),
        ),
        (Phase::WaitingForInit { child }).asks(args, settings) == Some(RequestView::Wait(child)),
        (Phase::Removing { id, end }).asks(args, settings) == Some(
            RequestView::RemoveDir(group_path(id)),
        ),
{
}

/// A task of the runtime or of the setup process that is granted leads to the next one, and
/// the last one to what comes after, for the same group and the same child. One that fails
/// leads to what is done about it, and keeps which one it was.
pub proof fn tasks_lead_to_the_next(
    line: Seq<Seq<char>>,
    reply: Reply,
    root: bool,
    new_id: u64,
    id: u64,
    child: i32,
    at: usize,
)
    ensures
        at < 5 && grants(reply) ==> (Phase::Preparing { id, at }).after(line, reply, root, new_id)
            == (Phase::Preparing { id, at: (at + 1) as usize }),
        grants(reply) ==> (Phase::Preparing { id, at: 5 }).after(line, reply, root, new_id) == (
        Phase::ForkingSetup { id }),
        reply is Failed ==> (Phase::Preparing { id, at }).after(line, reply, root, new_id) == (
        Phase::Removing { id, end: End::Fault(Fault::Prepare { id, at }) }),
        at < 7 && grants(reply) ==> (Phase::Parent { id, child, at }).after(
            line,
            reply,
            root,
            new_id,
        ) == (Phase::Parent { id, child, at: (at + 1) as usize }),
        grants(reply) ==> (Phase::Parent { id, child, at: 7 }).after(line, reply, root, new_id) == (
        Phase::WaitingForSetup { id, child }),
        reply is Failed ==> (Phase::Parent { id, child, at }).after(line, reply, root, new_id) == (
        Phase::Killing { id, child, at }),
        (Phase::Killing { id, child, at }).after(line, reply, root, new_id) == (Phase::Reaping {
            id,
            child,
            at,
        }),
        (Phase::Reaping { id, child, at }).after(line, reply, root, new_id) == (Phase::Removing {
            id,
            end: End::Fault(Fault::ParentSetup { id, child, at }),
        }),
        at < 5 && grants(reply) ==> (Phase::Setup { at }).after(line, reply, root, new_id) == (
        Phase::Setup { at: (at + 1) as usize }),
        grants(reply) ==> (Phase::Setup { at: 5 }).after(line, reply, root, new_id)
            == Phase::ForkingInit,
        reply is Failed ==> (Phase::Setup { at }).after(line, reply, root, new_id) == (
        Phase::Over { process: Process::Setup, end: End::Fault(Fault::Setup { at }) }),
{
}

/// A task of the first process of the container that is granted leads to the next one, and the
/// last one to the command, unless its command line holds a zero byte. A task that is not
/// granted ends the process, and it is kept which one it was.
pub proof fn first_processes_lead_to_the_command(
    line: Seq<Seq<char>>,
    reply: Reply,
    root: bool,
    new_id: u64,
    at: usize,
)
    ensures
        at < 12 && grants(reply) ==> (Phase::Init { at }).after(line, reply, root, new_id) == (
        Phase::Init { at: (at + 1) as usize }),
        grants(reply) && first_nul(line) is None ==> (Phase::Init { at: 12 }).after(
            line,
            reply,
            root,
            new_id,
        ) == Phase::Executing,
        first_nul(line) matches Some(error) ==> grants(reply) ==> (Phase::Init { at: 12 }).after(
            line,
            reply,
            root,
            new_id,
        ) == (Phase::Over { process: Process::Init, end: End::Fault(Fault::Nul(error)) }),
        reply is Failed ==> (Phase::Init { at }).after(line, reply, root, new_id) == (
        Phase::Over { process: Process::Init, end: End::Fault(Fault::Init { at }) }),
        reply == Reply::Answer(false) ==> (Phase::Init { at }).after(line, reply, root, new_id) == (
        Phase::Over { process: Process::Init, end: End::Fault(Fault::NotDirectory) }),
        Phase::Executing.after(line, reply, root, new_id) == (Phase::Over {
            process: Process::Init,
            end: End::Fault(Fault::Execute),
        }),
{
}

/// A process that is split goes on with the number of the new one, and the new one begins with
/// its first task. Without a new process, the group is removed, or the setup process ends.
pub proof fn splits_lead_to_both_processes(
    line: Seq<Seq<char>>,
    root: bool,
    new_id: u64,
    id: u64,
    child: i32,
)
    ensures
        (Phase::ForkingSetup { id }).after(line, Reply::Parent { child }, root, new_id) == (
        Phase::Parent { id, child, at: 0 }),
        (Phase::ForkingSetup { id }).after(line, Reply::Child, root, new_id) == (Phase::Setup {
            at: 0,
        }),
        (Phase::ForkingSetup { id }).after(line, Reply::Failed, root, new_id) == (
        Phase::Removing { id, end: End::Fault(Fault::ForkSetup) }),
        Phase::ForkingInit.after(line, Reply::Parent { child }, root, new_id) == (
        Phase::WaitingForInit { child }),
        Phase::ForkingInit.after(line, Reply::Child, root, new_id) == (Phase::Init { at: 0 }),
        Phase::ForkingInit.after(line, Reply::Failed, root, new_id) == (Phase::Over {
            process: Process::Setup,
            end: End::Fault(Fault::ForkInit),
        }),
{
}

/// What waiting comes to: the code of a child that exited, as far as it fits, 128 and the
/// number of the signal that ended it, or an error. The group is removed before it is passed
/// on, and that changes nothing of it.
pub proof fn ends_of_children_are_passed_on(
    line: Seq<Seq<char>>,
    root: bool,
    new_id: u64,
    id: u64,
    child: i32,
    status: WaitStatus,
    removed: Reply,
    end: End,
)
    requires
        status.valid(),
    ensures
        ({
            let waited = Reply::Waited(status);
            let of_setup = (Phase::WaitingForSetup { id, child }).after(line, waited, root, new_id);
            let of_init = (Phase::WaitingForInit { child }).after(line, waited, root, new_id);
            &&& status matches WaitStatus::Exited { code, .. } ==> (exists|passed: u8|
                {
                    &&& (code - passed) % 256 == 0
                    &&& of_setup == #[trigger] removing(id, passed)
                    &&& of_init == (Phase::Over {
                        process: Process::Setup,
                        end: End::Code(passed),
                    })
                })
            &&& status matches WaitStatus::Signaled { signal, .. } ==> of_setup == removing(
                id,
                (128 + signal) as u8,
            ) && of_init == (Phase::Over {
                process: Process::Setup,
                end: End::Code((128 + signal) as u8),
            })
            &&& !(status is Exited) && !(status is Signaled) ==> of_setup == (Phase::Removing {
                id,
                end: End::Fault(Fault::SetupStatus(status)),
            }) && of_init == (Phase::Over {
                process: Process::Setup,
                end: End::Fault(Fault::InitStatus(status)),
            })
        }),
        (Phase::WaitingForSetup { id, child }).after(line, Reply::Failed, root, new_id) == (
        Phase::Removing { id, end: End::Fault(Fault::WaitSetup) }),
        (Phase::WaitingForInit { child }).after(line, Reply::Failed, root, new_id) == (Phase::Over {
            process: Process::Setup,
            end: End::Fault(Fault::WaitInit),
        }),
        (Phase::Removing { id, end }).after(line, removed, root, new_id) == (Phase::Over {
            process: Process::Runtime,
            end,
        }),
{
    if let WaitStatus::Exited { code, .. } = status {
        let passed = (code as int % 256) as u8;
        let of_setup = (Phase::WaitingForSetup { id, child }).after(
            line,
            Reply::Waited(status),
            root,
            new_id,
        );
        assert((code - passed) % 256 == 0);
        assert(of_setup == removing(id, passed));
    }
}

/// The runtime removes the group, with a code to pass on.
pub open spec fn removing(id: u64, code: u8) -> Phase {
    Phase::Removing { id, end: End::Code(code) }
}

/// Making the group leads on by itself, then to the limits of the group that was made, or to
/// the error of why it was not.
pub proof fn creation_leads_to_the_limits(
    creation: Creation,
    line: Seq<Seq<char>>,
    reply: Reply,
    root: bool,
    new_id: u64,
)
    ensures
        ({
            let next = (Phase::Creating { creation }).after(line, reply, root, new_id);
            match creation.after(reply, root, new_id) {
                Creation::Created { id } => next == (Phase::Preparing { id, at: 0 }),
                Creation::Refused { refusal } => next == (Phase::Over {
                    process: Process::Runtime,
                    end: End::Fault(Fault::Creation(refusal)),
                }),
                going_on => next == (Phase::Creating { creation: going_on }),
            }
        }),
{
}

/// A process that is over passes on its code as it is. The runtime hands its error to the
/// user, and the others print theirs after their own banner and exit with 127.
pub proof fn ends_are_passed_on_as_they_are(
    args: RunArgs,
    settings: CgroupSettings,
    naming: Naming,
    code: u8,
    fault: Fault,
)
    ensures
        (Phase::Over { process: Process::Runtime, end: End::Code(code) }).turn(
            args,
            settings,
            naming,
        ) == TurnView::Return(code),
        (Phase::Over { process: Process::Setup, end: End::Code(code) }).turn(
            args,
            settings,
            naming,
        ) == TurnView::Exit(code),
        (Phase::Over { process: Process::Runtime, end: End::Fault(fault) }).turn(
            args,
            settings,
            naming,
        ) == TurnView::Fail(fault.explanation(args, settings, naming)),
        (Phase::Over { process: Process::Setup, end: End::Fault(fault) }).turn(
            args,
            settings,
            naming,
        ) == (TurnView::Abort {
            banner: match naming {
                Naming::ByRole => "container-runtime: setup process failed: "@,
                Naming::ByStep => "container-runtime: setup_child failed: "@,
            },
            failure: fault.explanation(args, settings, naming),
            code: 127,
        }),
        (Phase::Over { process: Process::Init, end: End::Fault(fault) }).turn(
            args,
            settings,
            naming,
        ) == (TurnView::Abort {
            banner: match naming {
                Naming::ByRole => "container-runtime: container init failed: "@,
                Naming::ByStep => "container-runtime: child_main failed: "@,
            },
            failure: fault.explanation(args, settings, naming),
            code: 127,
        }),
{
}

/// In every other phase, what the process is to do is what it asks of the system.
pub proof fn processes_do_what_they_ask_for(
    phase: Phase,
    args: RunArgs,
    settings: CgroupSettings,
    naming: Naming,
)
    requires
        !(phase is Over),
        phase.asks(args, settings) is Some,
    ensures
        phase.turn(args, settings, naming) == TurnView::Perform(phase.asks(args, settings)->0),
{
}

/// A failure around the system's error, with one text for each place, the innermost first.
pub open spec fn texts_before(failure: FailureView, texts: Seq<Seq<char>>) -> bool {
    &&& failure.cause is None
    &&& failure.contexts.len() == texts.len()
    &&& forall|i: int|
        0 <= i < texts.len() ==> #[trigger] failure.contexts[i] == seq![PieceView::Text(texts[i])]
}

/// What is said of a failure in the runtime names what was being done.
pub proof fn runtime_errors_say_what_was_done(
    args: RunArgs,
    settings: CgroupSettings,
    naming: Naming,
    id: u64,
    child: i32,
    refusal: Refusal,
)
    ensures
        (Fault::Creation(refusal)).explanation(args, settings, naming) == refusal.explanation(),
        ({
            let says = |at: usize, text: Seq<char>|
                texts_before(
                    (Fault::Prepare { id, at }).explanation(args, settings, naming),
                    seq![text],
                );
            &&& says(0, "write cpu.max"@)
            &&& says(1, "write memory.max"@)
            &&& says(2, "write pids.max"@)
            &&& says(3, "create cgroup pipe"@)
            &&& says(4, "create user namespace pipe"@)
            &&& says(5, "create mapping pipe"@)
        }),
        texts_before(
            Fault::ForkSetup.explanation(args, settings, naming),
            seq!["fork failed"@],
        ),
        texts_before(
            Fault::WaitSetup.explanation(args, settings, naming),
            seq!["waitpid failed"@],
        ),
{
    group_errors_name_their_files(group_path(id), settings, child);
    reveal_strlit("create ");
    reveal_strlit(" pipe");
    reveal_strlit("cgroup");
    reveal_strlit("user namespace");
    reveal_strlit("mapping");
    reveal_strlit("create cgroup pipe");
    reveal_strlit("create user namespace pipe");
    reveal_strlit("create mapping pipe");
    assert("create "@ + "cgroup"@ + " pipe"@ =~= "create cgroup pipe"@);
    assert("create "@ + "user namespace"@ + " pipe"@ =~= "create user namespace pipe"@);
    assert("create "@ + "mapping"@ + " pipe"@ =~= "create mapping pipe"@);
}

/// What is said of a failure in the runtime on behalf of the setup process names what was
/// being done, and that the process was ended for it.
#[verifier::rlimit(50)]
pub proof fn setup_errors_say_that_the_child_was_ended(
    args: RunArgs,
    settings: CgroupSettings,
    naming: Naming,
    id: u64,
    child: i32,
)
    ensures
        ({
            let failure = |at: usize|
                (Fault::ParentSetup { id, child, at }).explanation(args, settings, naming);
            let ended = "container setup failed; child killed"@;
            &&& texts_before(failure(0), seq![ended])
            &&& texts_before(
                failure(1),
                seq!["write cgroup.procs"@, "add setup child to cgroup"@, ended],
            )
            &&& texts_before(failure(2), seq![ended])
            &&& texts_before(failure(3), seq![ended])
            &&& texts_before(failure(7), seq![ended])
            &&& maps_failed(failure(4), child, "uid_map"@)
            &&& maps_failed(failure(5), child, "setgroups"@)
            &&& maps_failed(failure(6), child, "gid_map"@)
        }),
{
    group_errors_name_their_files(group_path(id), settings, child);
    let mapping = args.mapping(child);
    let digits = signed_decimal(child as int);
    numbers_are_spelled(0, child as int);
    reveal_strlit("write ");
    reveal_strlit("/proc/");
    reveal_strlit("/uid_map");
    reveal_strlit("/setgroups");
    reveal_strlit("/gid_map");
    reveal_strlit("uid_map");
    reveal_strlit("setgroups");
    reveal_strlit("gid_map");
    let start = seq!['w', 'r', 'i', 't', 'e', ' ', '/', 'p', 'r', 'o', 'c', '/'] + digits + seq![
        '/',
    ];
    assert("write "@ + ("/proc/"@ + digits + "/uid_map"@) =~= start + "uid_map"@);
    assert("write "@ + ("/proc/"@ + digits + "/setgroups"@) =~= start + "setgroups"@);
    assert("write "@ + ("/proc/"@ + digits + "/gid_map"@) =~= start + "gid_map"@);
    let work = parent_work(group_path(id), mapping);
    assert(work[4].contexts =~= seq![
        seq![PieceView::Text(start + "uid_map"@)],
        seq![PieceView::Text("map container UID/GID"@)],
    ]);
    assert(work[5].contexts =~= seq![
        seq![PieceView::Text(start + "setgroups"@)],
        seq![PieceView::Text("map container UID/GID"@)],
    ]);
    assert(work[6].contexts =~= seq![
        seq![PieceView::Text(start + "gid_map"@)],
        seq![PieceView::Text("map container UID/GID"@)],
    ]);
    assert(spells_signed(digits, child as int));
}

/// A failure to write a file of a process, while its IDs were mapped.
pub open spec fn maps_failed(failure: FailureView, child: i32, file: Seq<char>) -> bool {
    exists|digits: Seq<char>| #[trigger]
        spells_signed(digits, child as int) && texts_before(
            failure,
            seq![
                seq!['w', 'r', 'i', 't', 'e', ' ', '/', 'p', 'r', 'o', 'c', '/'] + digits + seq![
                    '/',
                ] + file,
                "map container UID/GID"@,
                "container setup failed; child killed"@,
            ],
        )
}

/// What is said of a failure in the other processes names what was being done.
#[verifier::rlimit(50)]
pub proof fn child_errors_say_what_was_done(
    args: RunArgs,
    settings: CgroupSettings,
    naming: Naming,
    at: usize,
    status: WaitStatus,
    error: NulError,
)
    ensures
        ({
            let failure = |at: usize| (Fault::Setup { at }).explanation(args, settings, naming);
            &&& texts_before(failure(0), seq![])
            &&& texts_before(failure(1), seq![])
            &&& texts_before(failure(2), seq!["unshare(CLONE_NEWUSER)"@])
            &&& texts_before(failure(3), seq![])
            &&& texts_before(failure(4), seq![])
            &&& texts_before(failure(5), seq!["unshare(CLONE_NEWPID | CLONE_NEWNET)"@])
        }),
        texts_before(
            Fault::ForkInit.explanation(args, settings, naming),
            seq!["fork (setup) failed"@],
        ),
        texts_before(
            Fault::WaitInit.explanation(args, settings, naming),
            seq!["waitpid(child) failed"@],
        ),
        (Fault::SetupStatus(status)).explanation(args, settings, naming) == (FailureView {
            cause: Some(
                seq![PieceView::Text("unexpected wait status: "@), PieceView::Status(status)],
            ),
            contexts: seq![],
        }),
        (Fault::InitStatus(status)).explanation(args, settings, naming) == (FailureView {
            cause: Some(
                seq![
                    PieceView::Text(
                        match naming {
                            Naming::ByRole => "unexpected wait status: "@,
                            Naming::ByStep => "unexpected wait status for init: "@,
                        },
                    ),
                    PieceView::Status(status),
                ],
            ),
            contexts: seq![],
        }),
        Fault::NotDirectory.explanation(args, settings, naming) == (FailureView {
            cause: Some(
                seq![
                    PieceView::Text("rootfs "@),
                    PieceView::QuotedPath(args.rootfs@),
                    PieceView::Text(" does not exist or is not a directory"@),
                ],
            ),
            contexts: seq![],
        }),
        at < 11 ==> (Fault::Init { at }).explanation(args, settings, naming) == (FailureView {
            cause: None,
            contexts: isolation(args.rootfs@)[at as int].contexts,
        }),
        texts_before((Fault::Init { at: 11 }).explanation(args, settings, naming), seq![]),
        texts_before((Fault::Init { at: 12 }).explanation(args, settings, naming), seq![]),
        (Fault::Nul(error)).explanation(args, settings, naming) == (FailureView {
            cause: Some(nul_cause(error)),
            contexts: seq![nul_context(error)],
        }),
        Fault::Execute.explanation(args, settings, naming) == (FailureView {
            cause: None,
            contexts: seq![seq![PieceView::Text("exec "@), PieceView::QuotedText(args.cmd@)]],
        }),
{
}

/// The command line that is searched for zero bytes is the one that is started: the command,
/// and then all its arguments.
pub proof fn whole_command_lines_are_searched(args: RunArgs)
    ensures
        args.line().len() == args.args@.len() + 1,
        args.line()[0] == args.cmd@,
        forall|i: int|
            0 <= i < args.args@.len() ==> args.line()[i + 1] == #[trigger] args.args@[i]@,
{
    assert forall|i: int| 0 <= i < args.args@.len() implies args.line()[i + 1]
        == #[trigger] args.args@[i]@ by {
        assert(text_views(args.args@)[i] == args.args@[i]@);
    }
}

/// A container begins with its own arguments, and with making its group.
pub proof fn containers_begin_with_their_arguments(
    args: RunArgs,
    rootfs_is_directory: bool,
    host_cpus: usize,
    runtime: Runtime,
    error: ArgsError,
)
    ensures
        begun(args, rootfs_is_directory, host_cpus, Ok(runtime)) ==> {
            &&& runtime.args == args
            &&& runtime.phase == (Phase::Creating { creation: Creation::FindMarker })
            &&& runtime.naming == Naming::ByRole
            &&& judged(args, rootfs_is_directory, host_cpus, Ok(runtime.settings))
        },
        begun(args, rootfs_is_directory, host_cpus, Err(error)) <==> judged(
            args,
            rootfs_is_directory,
            host_cpus,
            Err(error),
        ),
        begun_by_run(args, rootfs_is_directory, host_cpus, Ok(runtime)) ==> {
            &&& runtime.args == args
            &&& runtime.phase == (Phase::Creating { creation: Creation::FindMarker })
            &&& runtime.naming == Naming::ByStep
            &&& judged_to_run(args, rootfs_is_directory, host_cpus, Ok(runtime.settings))
        },
        begun_by_run(args, rootfs_is_directory, host_cpus, Err(error)) <==> judged_to_run(
            args,
            rootfs_is_directory,
            host_cpus,
            Err(error),
        ),
{
}

} // verus!
