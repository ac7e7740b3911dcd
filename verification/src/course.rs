//! What holds of the course of a container, whatever the system replies.

use crate::cgroup::{limits, CgroupSettings};
use crate::container::first_nul;
use crate::creation::{group_path, Creation, Happening};
use crate::plan::{
    init_work, INIT_TASKS, PARENT_TASKS, PREPARATION_TASKS, SETUP_TASKS,
};
use crate::request::{grants, Reply, RequestView};
use crate::run_args::RunArgs;
use crate::runtime::{End, Fault, Naming, Phase, Process, TurnView, FAILED_START};
use crate::wait::{exit_code, WaitStatus};
use vstd::prelude::*;

verus! {

/// The phase at which every container begins.
pub open spec fn beginning() -> Phase {
    Phase::Creating { creation: Creation::FindMarker }
}

/// How far a process has come after all that happened to it.
pub open spec fn reached(history: Seq<Happening>, line: Seq<Seq<char>>) -> Phase
    decreases history.len(),
{
    if history.len() == 0 {
        beginning()
    } else {
        let last = history.last();
        reached(history.drop_last(), line).after(line, last.reply, last.root, last.new_id)
    }
}

/// Every reply was one that the system can give.
pub open spec fn lawful(history: Seq<Happening>, args: RunArgs, settings: CgroupSettings) -> bool
    decreases history.len(),
{
    history.len() == 0 || {
        &&& lawful(history.drop_last(), args, settings)
        &&& reached(history.drop_last(), args.line()).expects(args, settings, history.last().reply)
    }
}

/// The control group that is there for the runtime to remove.
pub open spec fn group_in_hand(phase: Phase) -> Option<u64> {
    match phase {
        Phase::Preparing { id, .. } => Some(id),
        Phase::ForkingSetup { id } => Some(id),
        Phase::Parent { id, .. } => Some(id),
        Phase::Killing { id, .. } => Some(id),
        Phase::Reaping { id, .. } => Some(id),
        Phase::WaitingForSetup { id, .. } => Some(id),
        Phase::Removing { id, .. } => Some(id),
        _ => None,
    }
}

/// How many replies a process can still get, at most.
pub open spec fn remaining(phase: Phase) -> nat {
    match phase {
        Phase::Creating { creation } => match creation {
            Creation::FindMarker => 50,
            Creation::ReadActive => 49,
            Creation::EnableMissing { .. } => 48,
            Creation::CreateDirectory { .. } => 47,
            Creation::ReadDelegated { .. } => 46,
            _ => 45,
        },
        Phase::Preparing { at, .. } => (39 + PREPARATION_TASKS - at) as nat,
        Phase::ForkingSetup { .. } => 38,
        Phase::Parent { at, .. } => (5 + PARENT_TASKS - at) as nat,
        Phase::Killing { .. } => 3,
        Phase::Reaping { .. } => 2,
        Phase::WaitingForSetup { .. } => 2,
        Phase::Removing { .. } => 1,
        Phase::Setup { at } => (16 + SETUP_TASKS - at) as nat,
        Phase::ForkingInit => 15,
        Phase::WaitingForInit { .. } => 1,
        Phase::Init { at } => (1 + INIT_TASKS - at) as nat,
        Phase::Executing => 1,
        Phase::Over { .. } => 0,
    }
}

/// Every reply brings a process nearer to its end.
pub proof fn replies_lead_to_the_end(
    phase: Phase,
    args: RunArgs,
    settings: CgroupSettings,
    reply: Reply,
    root: bool,
    new_id: u64,
)
    requires
        phase.wf(args.line()),
        phase.expects(args, settings, reply),
    ensures
        phase.after(args.line(), reply, root, new_id).wf(args.line()),
        remaining(phase.after(args.line(), reply, root, new_id)) < remaining(phase),
{
}

/// A process gets at most so many replies, and whatever they are, it stays in the phases that
/// there are.
pub proof fn courses_are_finite(history: Seq<Happening>, args: RunArgs, settings: CgroupSettings)
    requires
        lawful(history, args, settings),
    ensures
        reached(history, args.line()).wf(args.line()),
        history.len() + remaining(reached(history, args.line())) <= remaining(beginning()),
    decreases history.len(),
{
    if history.len() > 0 {
        let last = history.last();
        courses_are_finite(history.drop_last(), args, settings);
        replies_lead_to_the_end(
            reached(history.drop_last(), args.line()),
            args,
            settings,
            last.reply,
            last.root,
            last.new_id,
        );
    }
}

/// A process is over only when it has a turn that ends it: in every other phase it asks
/// something of the system.
pub proof fn only_the_end_asks_nothing(
    phase: Phase,
    args: RunArgs,
    settings: CgroupSettings,
    naming: Naming,
)
    requires
        phase.wf(args.line()),
    ensures
        phase.asks(args, settings) is None <==> phase is Over,
        phase.turn(args, settings, naming) is Perform <==> !(phase is Over),
{
}

/// A control group stays in hand until the runtime removes it. Only the setup process lets go
/// of it, when it parts from the runtime, which keeps it.
pub proof fn groups_stay_in_hand(
    phase: Phase,
    line: Seq<Seq<char>>,
    reply: Reply,
    root: bool,
    new_id: u64,
)
    requires
        group_in_hand(phase) is Some,
    ensures
        ({
            let next = phase.after(line, reply, root, new_id);
            ||| group_in_hand(next) == group_in_hand(phase)
            ||| phase is Removing && next is Over && next.process() == Process::Runtime
            ||| phase is ForkingSetup && reply is Child
        }),
{
}

/// A container whose group was made comes to its end in the runtime by removing that group,
/// whatever happened, and with the end that it had come to before.
pub proof fn groups_are_removed(
    history: Seq<Happening>,
    args: RunArgs,
    settings: CgroupSettings,
    made: int,
    id: u64,
    end: End,
)
    requires
        lawful(history, args, settings),
        0 <= made <= history.len(),
        group_in_hand(reached(history.take(made), args.line())) == Some(id),
        reached(history, args.line()) == (Phase::Over { process: Process::Runtime, end }),
    ensures
        exists|n: int|
            made <= n < history.len() && #[trigger] reached(history.take(n), args.line()) == (
            Phase::Removing { id, end }),
        (Phase::Removing { id, end }).asks(args, settings) == Some(
            RequestView::RemoveDir(group_path(id)),
        ),
{
    held_or_removed(history, args, settings, made, history.len() as int, id);
    assert(history.take(history.len() as int) =~= history);
}

proof fn held_or_removed(
    history: Seq<Happening>,
    args: RunArgs,
    settings: CgroupSettings,
    made: int,
    now: int,
    id: u64,
)
    requires
        lawful(history, args, settings),
        0 <= made <= now <= history.len(),
        group_in_hand(reached(history.take(made), args.line())) == Some(id),
    ensures
        ({
            let phase = reached(history.take(now), args.line());
            ||| group_in_hand(phase) == Some(id)
            ||| phase.process() != Process::Runtime
            ||| phase is Over && exists|n: int|
                made <= n < now && #[trigger] reached(history.take(n), args.line()) == (
                Phase::Removing { id, end: phase->Over_end })
        }),
    decreases now - made,
{
    if made < now {
        let line = args.line();
        let before = history.take(now - 1);
        let last = history[now - 1];
        assert(history.take(now).drop_last() =~= before);
        assert(history.take(now).last() == last);
        held_or_removed(history, args, settings, made, now - 1, id);
        let phase = reached(before, line);
        let next = phase.after(line, last.reply, last.root, last.new_id);
        assert(reached(history.take(now), line) == next);
        prefixes_are_lawful(history, args, settings, now);
        if group_in_hand(phase) == Some(id) {
            groups_stay_in_hand(phase, line, last.reply, last.root, last.new_id);
            if phase is Removing {
                assert(reached(history.take(now - 1), line) == (Phase::Removing {
                    id,
                    end: next->Over_end,
                }));
            }
        } else if phase.process() == Process::Runtime {
            assert(phase is Over);
            assert(phase.asks(args, settings) is None);
        }
    }
}

proof fn prefixes_are_lawful(
    history: Seq<Happening>,
    args: RunArgs,
    settings: CgroupSettings,
    now: int,
)
    requires
        lawful(history, args, settings),
        0 <= now <= history.len(),
    ensures
        lawful(history.take(now), args, settings),
    decreases history.len() - now,
{
    if now < history.len() {
        prefixes_are_lawful(history, args, settings, now + 1);
        assert(history.take(now + 1).drop_last() =~= history.take(now));
    } else {
        assert(history.take(now) =~= history);
    }
}

/// A process becomes another only when it is split in two and is the new one.
pub proof fn processes_stay_apart(
    phase: Phase,
    line: Seq<Seq<char>>,
    reply: Reply,
    root: bool,
    new_id: u64,
)
    ensures
        ({
            let next = phase.after(line, reply, root, new_id);
            next.process() == phase.process() || {
                &&& reply is Child
                &&& {
                    ||| phase is ForkingSetup && next.process() == Process::Setup
                    ||| phase is ForkingInit && next.process() == Process::Init
                }
            }
        }),
{
}

/// Only the runtime hands an exit code or an error to the user. The other processes exit at
/// once, where they do not go on.
pub proof fn children_never_return(
    phase: Phase,
    args: RunArgs,
    settings: CgroupSettings,
    naming: Naming,
)
    ensures
        phase.process() == Process::Runtime ==> {
            let turn = phase.turn(args, settings, naming);
            turn is Perform || turn is Return || turn is Fail
        },
        phase.process() != Process::Runtime ==> {
            let turn = phase.turn(args, settings, naming);
            turn is Perform || turn is Exit || (turn matches TurnView::Abort { code, .. } && code
                == FAILED_START)
        },
{
}

/// When a task for the setup process fails in the runtime, it ends that process, waits for it
/// and removes the group, whatever the system replies, and then reports the task's failure.
pub proof fn failed_setups_are_cleaned_up(
    args: RunArgs,
    settings: CgroupSettings,
    naming: Naming,
    id: u64,
    child: i32,
    at: usize,
    killed: Reply,
    reaped: Reply,
    removed: Reply,
)
    ensures
        ({
            let line = args.line();
            let first = (Phase::Parent { id, child, at }).after(line, Reply::Failed, false, 0);
            let second = first.after(line, killed, false, 0);
            let third = second.after(line, reaped, false, 0);
            let last = third.after(line, removed, false, 0);
            &&& first.asks(args, settings) == Some(RequestView::Kill(child))
            &&& second.asks(args, settings) == Some(RequestView::Wait(child))
            &&& third.asks(args, settings) == Some(RequestView::RemoveDir(group_path(id)))
            &&& last.turn(args, settings, naming) == TurnView::Fail(
                Fault::ParentSetup { id, child, at }.explanation(args, settings, naming),
            )
        }),
{
}

/// The exit code of the first process of the container becomes that of the setup process, and
/// then that of the runtime.
pub proof fn exit_codes_reach_the_user(
    args: RunArgs,
    settings: CgroupSettings,
    naming: Naming,
    init: i32,
    status: WaitStatus,
    code: u8,
    id: u64,
    child: i32,
    removed: Reply,
)
    requires
        status.valid(),
        exit_code(status) == Some(code as int),
    ensures
        ({
            let line = args.line();
            let setup = (Phase::WaitingForInit { child: init }).after(
                line,
                Reply::Waited(status),
                false,
                0,
            );
            let seen = WaitStatus::Exited { pid: child, code: code as i32 };
            let runtime = (Phase::WaitingForSetup { id, child }).after(
                line,
                Reply::Waited(seen),
                false,
                0,
            ).after(line, removed, false, 0);
            &&& setup.turn(args, settings, naming) == TurnView::Exit(code)
            &&& runtime.turn(args, settings, naming) == TurnView::Return(code)
        }),
{
}

/// A setup process that a signal ends gives the runtime the exit code 128 and the number of
/// the signal.
pub proof fn signals_become_exit_codes(
    args: RunArgs,
    settings: CgroupSettings,
    naming: Naming,
    id: u64,
    child: i32,
    signal: i32,
    core_dumped: bool,
    removed: Reply,
)
    requires
        0 <= signal < 128,
    ensures
        ({
            let seen = WaitStatus::Signaled { pid: child, signal, core_dumped };
            let runtime = (Phase::WaitingForSetup { id, child }).after(
                args.line(),
                Reply::Waited(seen),
                false,
                0,
            ).after(args.line(), removed, false, 0);
            runtime.turn(args, settings, naming) == TurnView::Return((128 + signal) as u8)
        }),
{
}

/// At the moment `now` the process waited for its child, and learnt that it ended with the
/// code.
pub open spec fn learnt(
    history: Seq<Happening>,
    now: int,
    line: Seq<Seq<char>>,
    process: Process,
    code: u8,
) -> bool {
    let phase = reached(history.take(now), line);
    &&& 0 <= now < history.len()
    &&& if process is Setup {
        phase is WaitingForInit
    } else {
        phase is WaitingForSetup
    }
    &&& history[now].reply matches Reply::Waited(status) && exit_code(status) == Some(code as int)
}

/// A process comes to an exit code only by learning it from its child: the setup process from
/// the first process of the container, and the runtime from the setup process.
pub proof fn exit_codes_are_not_made_up(
    history: Seq<Happening>,
    args: RunArgs,
    settings: CgroupSettings,
    process: Process,
    code: u8,
)
    requires
        lawful(history, args, settings),
        reached(history, args.line()) == (Phase::Over { process, end: End::Code(code) }),
    ensures
        !(process is Init),
        exists|now: int| learnt(history, now, args.line(), process, code),
{
    traced_back(history, args, settings);
    if process is Runtime {
        let before = history.drop_last();
        traced_back(before, args, settings);
        assert(history.take(history.len() - 2) =~= before.drop_last());
        assert(learnt(history, history.len() - 2, args.line(), process, code));
    } else {
        assert(history.take(history.len() - 1) =~= history.drop_last());
        assert(learnt(history, history.len() - 1, args.line(), process, code));
    }
}

/// Where an exit code that the phase holds comes from.
spec fn origin(before: Phase, reply: Reply, phase: Phase) -> bool {
    match phase {
        Phase::Over { process: Process::Runtime, end: End::Code(code) } => before matches
            Phase::Removing { end, .. } && end == End::Code(code),
        Phase::Over { process: Process::Setup, end: End::Code(code) } => before
            is WaitingForInit && (reply matches Reply::Waited(status) && exit_code(status) == Some(
            code as int,
        )),
        Phase::Over { process: Process::Init, end } => end is Fault,
        Phase::Removing { end: End::Code(code), .. } => before is WaitingForSetup && (
        reply matches Reply::Waited(status) && exit_code(status) == Some(code as int)),
        _ => true,
    }
}

proof fn traced_back(history: Seq<Happening>, args: RunArgs, settings: CgroupSettings)
    requires
        lawful(history, args, settings),
        !(reached(history, args.line()) is Creating),
    ensures
        history.len() > 0,
        lawful(history.drop_last(), args, settings),
        origin(
            reached(history.drop_last(), args.line()),
            history.last().reply,
            reached(history, args.line()),
        ),
{
    let last = history.last();
    assert(history.len() > 0);
    code_comes_from_a_child(
        reached(history.drop_last(), args.line()),
        args,
        settings,
        last.reply,
        last.root,
        last.new_id,
    );
}

proof fn code_comes_from_a_child(
    phase: Phase,
    args: RunArgs,
    settings: CgroupSettings,
    reply: Reply,
    root: bool,
    new_id: u64,
)
    requires
        phase.expects(args, settings, reply),
    ensures
        origin(phase, reply, phase.after(args.line(), reply, root, new_id)),
{
}

/// The lists of tasks that a process does one after the other.
pub enum Series {
    /// The tasks before the runtime parts from the setup process.
    Preparation { id: u64 },
    /// The tasks of the runtime for the setup process.
    Parent { id: u64, child: i32 },
    /// The tasks of the setup process.
    Setup,
    /// The tasks of the first process of the container.
    Init,
}

impl Series {
    /// The phase in which a task of the list is done.
    pub open spec fn phase(self, at: int) -> Phase {
        match self {
            Series::Preparation { id } => Phase::Preparing { id, at: at as usize },
            Series::Parent { id, child } => Phase::Parent { id, child, at: at as usize },
            Series::Setup => Phase::Setup { at: at as usize },
            Series::Init => Phase::Init { at: at as usize },
        }
    }

    /// How many tasks of the list have just been done, where the process does them or goes on
    /// from the last of them.
    pub open spec fn done(self, phase: Phase) -> int {
        match (self, phase) {
            (Series::Preparation { id }, Phase::Preparing { id: own, at }) if own == id => {
                at as int
            },
            (Series::Preparation { id }, Phase::ForkingSetup { id: own }) if own == id => {
                PREPARATION_TASKS as int
            },
            (Series::Parent { id, child }, Phase::Parent { id: own, child: other, at }) if own
                == id && other == child => { at as int },
            (Series::Parent { id, child }, Phase::WaitingForSetup { id: own, child: other }) if own
                == id && other == child => { PARENT_TASKS as int },
            (Series::Setup, Phase::Setup { at }) => at as int,
            (Series::Setup, Phase::ForkingInit) => SETUP_TASKS as int,
            (Series::Init, Phase::Init { at }) => at as int,
            (Series::Init, Phase::Executing) => INIT_TASKS as int,
            _ => 0,
        }
    }
}

/// At the moment `now` the process was granted the task of the list that is next in order, if
/// it began with the list at the moment `start`.
pub open spec fn granted_in_turn(
    series: Series,
    history: Seq<Happening>,
    start: int,
    now: int,
    line: Seq<Seq<char>>,
) -> bool {
    &&& reached(history.take(now), line) == series.phase(now - start)
    &&& grants(history[now].reply)
}

/// The last `count` replies granted the first tasks of the list, in order.
#[verifier::opaque]
pub open spec fn last_ones_in_turn(
    series: Series,
    history: Seq<Happening>,
    count: int,
    line: Seq<Seq<char>>,
) -> bool {
    forall|now: int|
        history.len() - count <= now < history.len() ==> #[trigger] granted_in_turn(
            series,
            history,
            history.len() - count,
            now,
            line,
        )
}

/// A process gets through a list of tasks only by being granted each of them, in order and
/// without a gap.
pub proof fn tasks_are_granted_in_turn(
    series: Series,
    history: Seq<Happening>,
    args: RunArgs,
    settings: CgroupSettings,
)
    requires
        lawful(history, args, settings),
    ensures
        history.len() >= series.done(reached(history, args.line())),
        last_ones_in_turn(
            series,
            history,
            series.done(reached(history, args.line())),
            args.line(),
        ),
    decreases history.len(),
{
    let done = series.done(reached(history, args.line()));
    if done > 0 {
        before_a_task(series, history, args, settings, done);
        tasks_are_granted_in_turn(series, history.drop_last(), args, settings);
        one_more_in_turn(series, history, args.line(), done);
    } else {
        reveal(last_ones_in_turn);
    }
}

proof fn one_more_in_turn(
    series: Series,
    history: Seq<Happening>,
    line: Seq<Seq<char>>,
    count: int,
)
    requires
        0 < count <= history.len(),
        reached(history.drop_last(), line) == series.phase(count - 1),
        grants(history.last().reply),
        last_ones_in_turn(series, history.drop_last(), count - 1, line),
    ensures
        last_ones_in_turn(series, history, count, line),
{
    reveal(last_ones_in_turn);
    let before = history.drop_last();
    assert forall|now: int|
        history.len() - count <= now < history.len() implies #[trigger] granted_in_turn(
        series,
        history,
        history.len() - count,
        now,
        line,
    ) by {
        if now < history.len() - 1 {
            assert(granted_in_turn(series, before, before.len() - (count - 1), now, line));
            assert(history.take(now) =~= before.take(now));
        } else {
            assert(history.take(now) =~= before);
        }
    }
}

proof fn before_a_task(
    series: Series,
    history: Seq<Happening>,
    args: RunArgs,
    settings: CgroupSettings,
    done: int,
)
    requires
        lawful(history, args, settings),
        done == series.done(reached(history, args.line())),
        done > 0,
    ensures
        history.len() > 0,
        lawful(history.drop_last(), args, settings),
        reached(history.drop_last(), args.line()) == series.phase(done - 1),
        series.done(reached(history.drop_last(), args.line())) == done - 1,
        grants(history.last().reply),
{
    let before = history.drop_last();
    let last = history.last();
    assert(history.len() > 0);
    courses_are_finite(before, args, settings);
    tasks_come_one_by_one(
        series,
        reached(before, args.line()),
        args,
        settings,
        last.reply,
        last.root,
        last.new_id,
    );
}

proof fn tasks_come_one_by_one(
    series: Series,
    phase: Phase,
    args: RunArgs,
    settings: CgroupSettings,
    reply: Reply,
    root: bool,
    new_id: u64,
)
    requires
        series.done(phase.after(args.line(), reply, root, new_id)) > 0,
        phase.wf(args.line()),
        phase.expects(args, settings, reply),
    ensures
        ({
            let done = series.done(phase.after(args.line(), reply, root, new_id));
            &&& phase == series.phase(done - 1)
            &&& series.done(phase) == done - 1
            &&& grants(reply)
        }),
{
}

/// The limits are set, and the pipes are made, before there is another process.
pub proof fn containers_are_limited_first(
    history: Seq<Happening>,
    args: RunArgs,
    settings: CgroupSettings,
    id: u64,
)
    requires
        lawful(history, args, settings),
        reached(history, args.line()) == (Phase::ForkingSetup { id }),
    ensures
        history.len() >= PREPARATION_TASKS,
        last_ones_in_turn(
            Series::Preparation { id },
            history,
            PREPARATION_TASKS as int,
            args.line(),
        ),
        forall|k: int|
            0 <= k < 3 ==> (Phase::Preparing { id, at: k as usize }).asks(args, settings) == Some(
                (#[trigger] limits(group_path(id), settings)[k]).request,
            ),
{
    tasks_are_granted_in_turn(Series::Preparation { id }, history, args, settings);
}

/// The command is started only after every task of the first process of the container was
/// granted, and only with a command line that a program can have.
pub proof fn commands_start_confined(
    history: Seq<Happening>,
    args: RunArgs,
    settings: CgroupSettings,
)
    requires
        lawful(history, args, settings),
        reached(history, args.line()) is Executing,
    ensures
        first_nul(args.line()) is None,
        history.len() >= INIT_TASKS,
        last_ones_in_turn(Series::Init, history, INIT_TASKS as int, args.line()),
        forall|k: int|
            0 <= k < INIT_TASKS ==> (Phase::Init { at: k as usize }).asks(args, settings) == Some(
                (#[trigger] init_work(args.rootfs@)[k]).request,
            ),
{
    courses_are_finite(history, args, settings);
    tasks_are_granted_in_turn(Series::Init, history, args, settings);
}

} // verus!
