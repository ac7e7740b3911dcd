//! How the runtime and the setup process keep in step, once they have parted.

use crate::cgroup::{joining, CgroupSettings};
use crate::creation::group_path;
use crate::ipc::{
    empty_pipes_hold_no_signal, receiving, signals_are_received, waits, Flow, IpcFault, Progress,
    ReadOutcome, READY,
};
use crate::plan::{init_work, parent_work, setup_work, INIT_TASKS, PARENT_TASKS, SETUP_TASKS};
use crate::request::{grants, Channel, Namespaces, Reply, RequestView};
use crate::run_args::RunArgs;
use crate::runtime::{Phase, Process};
use vstd::prelude::*;

verus! {

/// Both processes, and the phases whose request was granted, in the order in which it was.
pub struct World {
    /// How far the runtime has come.
    pub runtime: Phase,
    /// How far the setup process has come, or the first process of the container, where that
    /// is followed from the moment it parts.
    pub child: Phase,
    /// The phases of either process that are behind it.
    pub log: Seq<Phase>,
}

/// A reply of the system to one of the processes.
pub struct Event {
    pub to_runtime: bool,
    pub reply: Reply,
}

/// Both processes at the moment at which they part.
pub open spec fn parting(id: u64, child: i32) -> World {
    World {
        runtime: Phase::Parent { id, child, at: 0 },
        child: Phase::Setup { at: 0 },
        log: Seq::empty(),
    }
}

/// The processes part when the runtime is split in two.
pub proof fn processes_part_at_the_fork(id: u64, child: i32, line: Seq<Seq<char>>)
    ensures
        (Phase::ForkingSetup { id }).after(line, Reply::Parent { child }, false, 0) == parting(
            id,
            child,
        ).runtime,
        (Phase::ForkingSetup { id }).after(line, Reply::Child, false, 0) == parting(
            id,
            child,
        ).child,
{
}

/// The phase is behind its process.
pub open spec fn behind(log: Seq<Phase>, phase: Phase) -> bool {
    exists|i: int| 0 <= i < log.len() && #[trigger] log[i] == phase
}

/// The second phase was never granted without the first having been granted earlier.
pub open spec fn precedes(log: Seq<Phase>, first: Phase, second: Phase) -> bool {
    forall|j: int|
        0 <= j < log.len() && #[trigger] log[j] == second ==> behind(log.take(j), first)
}

/// The phase in which the signal of a channel is sent.
pub open spec fn sender(channel: Channel, id: u64, child: i32) -> Phase {
    match channel {
        Channel::Cgroup => Phase::Parent { id, child, at: 2 },
        Channel::UserNamespace => Phase::Setup { at: 3 },
        Channel::Mapping => Phase::Parent { id, child, at: 7 },
    }
}

/// The phase in which the signal of a channel is waited for.
pub open spec fn receiver(channel: Channel, id: u64, child: i32) -> Phase {
    match channel {
        Channel::Cgroup => Phase::Setup { at: 1 },
        Channel::UserNamespace => Phase::Parent { id, child, at: 3 },
        Channel::Mapping => Phase::Setup { at: 4 },
    }
}

/// The signal of a channel has been sent.
pub open spec fn sent(
    log: Seq<Phase>,
    channel: Channel,
    args: RunArgs,
    settings: CgroupSettings,
) -> bool {
    exists|i: int|
        0 <= i < log.len() && (#[trigger] log[i]).asks(args, settings) == Some(
            RequestView::Send(channel),
        )
}

/// The system can give the reply in the phase: a signal is received only after it was sent.
pub open spec fn possible(
    phase: Phase,
    reply: Reply,
    log: Seq<Phase>,
    args: RunArgs,
    settings: CgroupSettings,
) -> bool {
    &&& phase.expects(args, settings, reply)
    &&& phase.asks(args, settings) matches Some(RequestView::Receive(channel)) ==> grants(reply)
        ==> sent(log, channel, args, settings)
}

impl World {
    /// How the processes stand after a reply.
    pub open spec fn after(self, event: Event, line: Seq<Seq<char>>) -> World {
        let phase = if event.to_runtime {
            self.runtime
        } else {
            self.child
        };
        let log = if grants(event.reply) {
            self.log.push(phase)
        } else {
            self.log
        };
        let next = phase.after(line, event.reply, false, 0);
        if event.to_runtime {
            World { runtime: next, child: self.child, log }
        } else {
            World { runtime: self.runtime, child: next, log }
        }
    }

    /// The system can give the reply.
    pub open spec fn allows(self, event: Event, args: RunArgs, settings: CgroupSettings) -> bool {
        if event.to_runtime {
            possible(self.runtime, event.reply, self.log, args, settings)
        } else {
            possible(self.child, event.reply, self.log, args, settings)
        }
    }
}

/// How the processes stand after all that happened since they parted.
pub open spec fn standing(id: u64, child: i32, events: Seq<Event>, line: Seq<Seq<char>>) -> World
    decreases events.len(),
{
    if events.len() == 0 {
        parting(id, child)
    } else {
        standing(id, child, events.drop_last(), line).after(events.last(), line)
    }
}

/// All that happened is what the system can do.
pub open spec fn plausible(
    id: u64,
    child: i32,
    events: Seq<Event>,
    args: RunArgs,
    settings: CgroupSettings,
) -> bool
    decreases events.len(),
{
    events.len() == 0 || {
        &&& plausible(id, child, events.drop_last(), args, settings)
        &&& standing(id, child, events.drop_last(), args.line()).allows(
            events.last(),
            args,
            settings,
        )
    }
}

/// The process waits for a signal that has not been sent.
pub open spec fn stuck(
    phase: Phase,
    log: Seq<Phase>,
    args: RunArgs,
    settings: CgroupSettings,
) -> bool {
    phase.asks(args, settings) matches Some(RequestView::Receive(channel)) && !sent(
        log,
        channel,
        args,
        settings,
    )
}

/// How many of its tasks for the setup process are behind the runtime, as far as its phase
/// tells.
spec fn parent_done(phase: Phase) -> int {
    match phase {
        Phase::Parent { at, .. } => at as int,
        Phase::WaitingForSetup { .. } => PARENT_TASKS as int,
        _ => 0,
    }
}

/// How many of its tasks are behind the setup process, as far as its phase tells.
spec fn setup_done(phase: Phase) -> int {
    match phase {
        Phase::Setup { at } => at as int,
        Phase::Over { .. } => 0,
        _ => SETUP_TASKS as int,
    }
}

/// The phase is one that the runtime can be in after the processes have parted.
spec fn of_runtime(phase: Phase, id: u64, child: i32) -> bool {
    match phase {
        Phase::Parent { id: own, child: other, at } => own == id && other == child && at
            < PARENT_TASKS,
        Phase::Killing { .. } => true,
        Phase::Reaping { .. } => true,
        Phase::WaitingForSetup { .. } => true,
        Phase::Removing { .. } => true,
        Phase::Over { process, .. } => process == Process::Runtime,
        _ => false,
    }
}

/// The phase is one that the setup process, or one that parts from it, can be in.
spec fn of_child(phase: Phase, line: Seq<Seq<char>>) -> bool {
    phase.wf(line) && phase.process() != Process::Runtime
}

spec fn in_step(w: World, id: u64, child: i32, line: Seq<Seq<char>>) -> bool {
    &&& of_runtime(w.runtime, id, child)
    &&& of_child(w.child, line)
    &&& forall|i: int|
        0 <= i < w.log.len() ==> of_runtime(#[trigger] w.log[i], id, child) || of_child(
            w.log[i],
            line,
        )
    &&& forall|k: usize|
        k < parent_done(w.runtime) ==> #[trigger] behind(w.log, Phase::Parent { id, child, at: k })
    &&& forall|k: usize|
        k < setup_done(w.child) ==> #[trigger] behind(w.log, Phase::Setup { at: k })
    &&& chained(w.log, id, child)
    &&& w.runtime matches Phase::Parent { at, .. } ==> forall|k: usize|
        #[trigger] behind(w.log, Phase::Parent { id, child, at: k }) ==> k < at
    &&& w.child matches Phase::Setup { at } ==> forall|k: usize|
        #[trigger] behind(w.log, Phase::Setup { at: k }) ==> k < at
}

spec fn chained(log: Seq<Phase>, id: u64, child: i32) -> bool {
    &&& forall|k: usize, l: usize|
        k < l < PARENT_TASKS ==> #[trigger] precedes(
            log,
            Phase::Parent { id, child, at: k },
            Phase::Parent { id, child, at: l },
        )
    &&& forall|k: usize, l: usize|
        k < l < SETUP_TASKS ==> #[trigger] precedes(
            log,
            Phase::Setup { at: k },
            Phase::Setup { at: l },
        )
    &&& precedes(log, Phase::Parent { id, child, at: 2 }, Phase::Setup { at: 1 })
    &&& precedes(log, Phase::Setup { at: 3 }, Phase::Parent { id, child, at: 3 })
    &&& precedes(log, Phase::Parent { id, child, at: 7 }, Phase::Setup { at: 4 })
}

proof fn still_behind(log: Seq<Phase>, phase: Phase, next: Phase)
    requires
        behind(log, phase),
    ensures
        behind(log.push(next), phase),
{
    let i = choose|i: int| 0 <= i < log.len() && #[trigger] log[i] == phase;
    assert(log.push(next)[i] == phase);
}

proof fn behind_before_or_now(log: Seq<Phase>, next: Phase, phase: Phase)
    requires
        behind(log.push(next), phase),
    ensures
        next == phase || behind(log, phase),
{
    let i = choose|i: int| 0 <= i < log.push(next).len() && #[trigger] log.push(next)[i] == phase;
    if i < log.len() {
        assert(log[i] == phase);
    }
}

proof fn still_precedes(log: Seq<Phase>, first: Phase, second: Phase, next: Phase)
    requires
        precedes(log, first, second),
        next == second ==> behind(log, first),
    ensures
        precedes(log.push(next), first, second),
{
    let longer = log.push(next);
    assert forall|j: int| 0 <= j < longer.len() && #[trigger] longer[j] == second implies behind(
        longer.take(j),
        first,
    ) by {
        if j < log.len() {
            assert(log[j] == second);
            assert(longer.take(j) =~= log.take(j));
        } else {
            assert(longer.take(j) =~= log);
        }
    }
}

proof fn precedence_is_transitive(log: Seq<Phase>, first: Phase, second: Phase, third: Phase)
    requires
        precedes(log, first, second),
        precedes(log, second, third),
    ensures
        precedes(log, first, third),
{
    assert forall|j: int| 0 <= j < log.len() && #[trigger] log[j] == third implies behind(
        log.take(j),
        first,
    ) by {
        let earlier = log.take(j);
        let i = choose|i: int| 0 <= i < earlier.len() && #[trigger] earlier[i] == second;
        assert(log[i] == second);
        assert(behind(log.take(i), first));
        let h = choose|h: int| 0 <= h < log.take(i).len() && #[trigger] log.take(i)[h] == first;
        assert(earlier[h] == first);
    }
}

proof fn requests_of_the_runtime(group: Seq<u8>, args: RunArgs, child: i32)
    ensures
        ({
            let work = parent_work(group, args.mapping(child));
            &&& work.len() == PARENT_TASKS
            &&& work[0].request is KeepParentEnds
            &&& work[1].request == joining(group, child).request
            &&& work[1].request is Write
            &&& work[2].request == RequestView::Send(Channel::Cgroup)
            &&& work[3].request == RequestView::Receive(Channel::UserNamespace)
            &&& forall|k: int|
                4 <= k < 7 ==> (#[trigger] work[k]).request == args.mapping(child).tasks()[k
                    - 4].request && work[k].request is Write
            &&& work[7].request == RequestView::Send(Channel::Mapping)
        }),
{
}

proof fn requests_of_the_setup_process()
    ensures
        setup_work().len() == SETUP_TASKS,
        setup_work()[0].request is KeepChildEnds,
        setup_work()[1].request == RequestView::Receive(Channel::Cgroup),
        setup_work()[2].request == RequestView::Unshare(Namespaces::User),
        setup_work()[3].request == RequestView::Send(Channel::UserNamespace),
        setup_work()[4].request == RequestView::Receive(Channel::Mapping),
        setup_work()[5].request == RequestView::Unshare(Namespaces::PidAndNetwork),
{
}

proof fn the_first_process_uses_no_channel(rootfs: Seq<u8>, at: int)
    requires
        0 <= at < INIT_TASKS,
    ensures
        !(init_work(rootfs)[at].request is Send),
        !(init_work(rootfs)[at].request is Receive),
{
}

proof fn channels_in_phases(
    phase: Phase,
    args: RunArgs,
    settings: CgroupSettings,
    id: u64,
    child: i32,
)
    requires
        of_runtime(phase, id, child) || of_child(phase, args.line()),
    ensures
        phase.asks(args, settings) matches Some(RequestView::Send(channel)) ==> phase == sender(
            channel,
            id,
            child,
        ),
        phase.asks(args, settings) matches Some(RequestView::Receive(channel)) ==> phase
            == receiver(channel, id, child),
{
    match phase {
        Phase::Parent { at, .. } => {
            requests_of_the_runtime(group_path(id), args, child);
            if 4 <= at < 7 {
                assert(parent_work(group_path(id), args.mapping(child))[at as int].request
                    is Write);
            }
        },
        Phase::Setup { at } => {
            requests_of_the_setup_process();
        },
        Phase::Init { at } => {
            the_first_process_uses_no_channel(args.rootfs@, at as int);
        },
        _ => {},
    }
}

/// Each end of a channel is used in one phase, which is over once the signal has passed: the
/// processes signal and wait once on each channel, one at each end.
pub proof fn each_end_is_used_once(
    args: RunArgs,
    settings: CgroupSettings,
    id: u64,
    child: i32,
    channel: Channel,
    phase: Phase,
)
    requires
        phase.wf(args.line()),
        phase.process() == Process::Runtime ==> (phase matches Phase::Parent {
            id: own,
            child: other,
            ..
        } && own == id && other == child),
    ensures
        phase.asks(args, settings) == Some(RequestView::Send(channel)) <==> phase == sender(
            channel,
            id,
            child,
        ),
        phase.asks(args, settings) == Some(RequestView::Receive(channel)) <==> phase == receiver(
            channel,
            id,
            child,
        ),
        sender(channel, id, child).process() != receiver(channel, id, child).process(),
{
    channels_in_phases(phase, args, settings, id, child);
    requests_of_the_runtime(group_path(id), args, child);
    requests_of_the_setup_process();
}

proof fn sent_by_the_sender(
    w: World,
    args: RunArgs,
    settings: CgroupSettings,
    id: u64,
    child: i32,
    channel: Channel,
)
    requires
        in_step(w, id, child, args.line()),
    ensures
        sent(w.log, channel, args, settings) <==> behind(w.log, sender(channel, id, child)),
{
    if sent(w.log, channel, args, settings) {
        let i = choose|i: int|
            0 <= i < w.log.len() && (#[trigger] w.log[i]).asks(args, settings) == Some(
                RequestView::Send(channel),
            );
        channels_in_phases(w.log[i], args, settings, id, child);
    }
    if behind(w.log, sender(channel, id, child)) {
        each_end_is_used_once(
            args,
            settings,
            id,
            child,
            channel,
            sender(channel, id, child),
        );
        let i = choose|i: int|
            0 <= i < w.log.len() && #[trigger] w.log[i] == sender(channel, id, child);
        assert(w.log[i].asks(args, settings) == Some(RequestView::Send(channel)));
    }
}

proof fn chain_grows(w: World, next: Phase, id: u64, child: i32, line: Seq<Seq<char>>)
    requires
        in_step(w, id, child, line),
        next == w.runtime || next == w.child,
        next == (Phase::Setup { at: 1 }) ==> behind(w.log, Phase::Parent { id, child, at: 2 }),
        next == (Phase::Parent { id, child, at: 3 }) ==> behind(w.log, Phase::Setup { at: 3 }),
        next == (Phase::Setup { at: 4 }) ==> behind(w.log, Phase::Parent { id, child, at: 7 }),
    ensures
        chained(w.log.push(next), id, child),
{
    let log = w.log;
    assert forall|k: usize, l: usize| k < l < PARENT_TASKS implies #[trigger] precedes(
        log.push(next),
        Phase::Parent { id, child, at: k },
        Phase::Parent { id, child, at: l },
    ) by {
        still_precedes(
            log,
            Phase::Parent { id, child, at: k },
            Phase::Parent { id, child, at: l },
            next,
        );
    }
    assert forall|k: usize, l: usize| k < l < SETUP_TASKS implies #[trigger] precedes(
        log.push(next),
        Phase::Setup { at: k },
        Phase::Setup { at: l },
    ) by {
        still_precedes(log, Phase::Setup { at: k }, Phase::Setup { at: l }, next);
    }
    still_precedes(log, Phase::Parent { id, child, at: 2 }, Phase::Setup { at: 1 }, next);
    still_precedes(log, Phase::Setup { at: 3 }, Phase::Parent { id, child, at: 3 }, next);
    still_precedes(log, Phase::Parent { id, child, at: 7 }, Phase::Setup { at: 4 }, next);
}

proof fn steps_keep_step(
    w: World,
    event: Event,
    args: RunArgs,
    settings: CgroupSettings,
    id: u64,
    child: i32,
)
    requires
        in_step(w, id, child, args.line()),
        w.allows(event, args, settings),
    ensures
        in_step(w.after(event, args.line()), id, child, args.line()),
{
    let line = args.line();
    let phase = if event.to_runtime {
        w.runtime
    } else {
        w.child
    };
    let next = w.after(event, line);
    channels_in_phases(phase, args, settings, id, child);
    requests_of_the_runtime(group_path(id), args, child);
    requests_of_the_setup_process();
    sent_by_the_sender(w, args, settings, id, child, Channel::Cgroup);
    sent_by_the_sender(w, args, settings, id, child, Channel::UserNamespace);
    sent_by_the_sender(w, args, settings, id, child, Channel::Mapping);
    if grants(event.reply) {
        chain_grows(w, phase, id, child, line);
        assert(next.log == w.log.push(phase));
        assert(behind(next.log, phase)) by {
            assert(next.log[w.log.len() as int] == phase);
        }
        assert forall|k: usize| k < parent_done(next.runtime) implies #[trigger] behind(
            next.log,
            Phase::Parent { id, child, at: k },
        ) by {
            if k < parent_done(w.runtime) {
                still_behind(w.log, Phase::Parent { id, child, at: k }, phase);
            }
        }
        assert forall|k: usize| k < setup_done(next.child) implies #[trigger] behind(
            next.log,
            Phase::Setup { at: k },
        ) by {
            if k < setup_done(w.child) {
                still_behind(w.log, Phase::Setup { at: k }, phase);
            }
        }
        assert forall|k: usize| next.runtime is Parent && #[trigger] behind(
            next.log,
            Phase::Parent { id, child, at: k },
        ) implies k < next.runtime->Parent_at by {
            behind_before_or_now(w.log, phase, Phase::Parent { id, child, at: k });
        }
        assert forall|k: usize| next.child is Setup && #[trigger] behind(
            next.log,
            Phase::Setup { at: k },
        ) implies k < next.child->Setup_at by {
            behind_before_or_now(w.log, phase, Phase::Setup { at: k });
        }
        assert forall|i: int| 0 <= i < next.log.len() implies of_runtime(
            #[trigger] next.log[i],
            id,
            child,
        ) || of_child(next.log[i], line) by {
            if i < w.log.len() {
                assert(next.log[i] == w.log[i]);
            }
        }
    }
}

proof fn always_in_step(
    args: RunArgs,
    settings: CgroupSettings,
    id: u64,
    child: i32,
    events: Seq<Event>,
)
    requires
        plausible(id, child, events, args, settings),
    ensures
        in_step(standing(id, child, events, args.line()), id, child, args.line()),
    decreases events.len(),
{
    if events.len() > 0 {
        let before = events.drop_last();
        always_in_step(args, settings, id, child, before);
        steps_keep_step(
            standing(id, child, before, args.line()),
            events.last(),
            args,
            settings,
            id,
            child,
        );
    }
}

/// The process has an end of the channel to write to: any before it has let go of those of the
/// other process, and then its own, until it has signaled.
pub open spec fn can_write(
    is_runtime: bool,
    channel: Channel,
    log: Seq<Phase>,
    id: u64,
    child: i32,
) -> bool {
    let own = (sender(channel, id, child).process() is Runtime) == is_runtime;
    ||| !behind(log, letting_go(is_runtime, id, child))
    ||| own && !behind(log, sender(channel, id, child))
}

/// The phase in which a process lets go of the ends of the other.
pub open spec fn letting_go(is_runtime: bool, id: u64, child: i32) -> Phase {
    if is_runtime {
        Phase::Parent { id, child, at: 0 }
    } else {
        Phase::Setup { at: 0 }
    }
}

/// The pipe of a channel. A process that is gone has no ends any more.
pub open spec fn flow(
    channel: Channel,
    log: Seq<Phase>,
    id: u64,
    child: i32,
    runtime_is_gone: bool,
    child_is_gone: bool,
) -> Flow {
    Flow {
        bytes: if behind(log, sender(channel, id, child)) && !behind(
            log,
            receiver(channel, id, child),
        ) {
            seq![READY]
        } else {
            seq![]
        },
        writable: (!runtime_is_gone && can_write(true, channel, log, id, child)) || (
        !child_is_gone && can_write(false, channel, log, id, child)),
    }
}

/// The phase of one of the processes.
pub open spec fn phase_of(w: World, is_runtime: bool) -> Phase {
    if is_runtime {
        w.runtime
    } else {
        w.child
    }
}

/// Before a process waits for a signal, it has let go of the ends of the other, so that it has
/// itself no end to write to in the pipe that it waits on.
pub proof fn ends_are_let_go_before_waiting(
    args: RunArgs,
    settings: CgroupSettings,
    id: u64,
    child: i32,
    events: Seq<Event>,
    is_runtime: bool,
    channel: Channel,
)
    requires
        plausible(id, child, events, args, settings),
        phase_of(standing(id, child, events, args.line()), is_runtime).asks(args, settings) == Some(
            RequestView::Receive(channel),
        ),
    ensures
        ({
            let w = standing(id, child, events, args.line());
            &&& letting_go(true, id, child).asks(args, settings) == Some(
                RequestView::KeepParentEnds,
            )
            &&& letting_go(false, id, child).asks(args, settings) == Some(
                RequestView::KeepChildEnds,
            )
            &&& behind(w.log, letting_go(is_runtime, id, child))
            &&& phase_of(w, is_runtime) == receiver(channel, id, child)
            &&& !can_write(is_runtime, channel, w.log, id, child)
        }),
{
    let w = standing(id, child, events, args.line());
    always_in_step(args, settings, id, child, events);
    requests_of_the_runtime(group_path(id), args, child);
    requests_of_the_setup_process();
    channels_in_phases(phase_of(w, is_runtime), args, settings, id, child);
}

/// A process does not wait for one that is gone. If the other signaled before, the signal is
/// received. If it did not, the wait ends with the error that the pipe was closed, and the
/// process gives up: the runtime ends what is left of the setup process, and the setup process
/// comes to its end.
pub proof fn gone_peers_end_the_wait(
    args: RunArgs,
    settings: CgroupSettings,
    id: u64,
    child: i32,
    events: Seq<Event>,
    is_runtime: bool,
    channel: Channel,
    flows: Seq<Flow>,
    outcomes: Seq<ReadOutcome>,
)
    requires
        plausible(id, child, events, args, settings),
        phase_of(standing(id, child, events, args.line()), is_runtime).asks(args, settings) == Some(
            RequestView::Receive(channel),
        ),
        waits(flows, outcomes),
        flows[0] == flow(
            channel,
            standing(id, child, events, args.line()).log,
            id,
            child,
            !is_runtime,
            is_runtime,
        ),
    ensures
        ({
            let w = standing(id, child, events, args.line());
            let given_up = phase_of(w, is_runtime).after(args.line(), Reply::Failed, false, 0);
            &&& flows[0].bytes.len() > 0 || !flows[0].writable
            &&& receiving(outcomes.last()) == if sent(w.log, channel, args, settings) {
                Ok::<Progress, IpcFault>(Progress::Ready)
            } else {
                Err::<Progress, IpcFault>(IpcFault::Closed)
            }
            &&& is_runtime ==> given_up == (Phase::Killing { id, child, at: 3 })
            &&& !is_runtime ==> (given_up matches Phase::Over { process, end } && process
                == Process::Setup && end is Fault)
        }),
{
    let w = standing(id, child, events, args.line());
    always_in_step(args, settings, id, child, events);
    ends_are_let_go_before_waiting(args, settings, id, child, events, is_runtime, channel);
    sent_by_the_sender(w, args, settings, id, child, channel);
    assert(!behind(w.log, receiver(channel, id, child)));
    if sent(w.log, channel, args, settings) {
        signals_are_received(flows, outcomes);
    } else {
        empty_pipes_hold_no_signal(flows, outcomes);
    }
}

/// The setup process moves to a user namespace only after it has joined the control group. The
/// IDs of the namespace are mapped only after that. It moves to the other namespaces only
/// after all IDs are mapped.
pub proof fn startup_is_in_order(
    args: RunArgs,
    settings: CgroupSettings,
    id: u64,
    child: i32,
    events: Seq<Event>,
)
    requires
        plausible(id, child, events, args, settings),
    ensures
        ({
            let log = standing(id, child, events, args.line()).log;
            let joined = Phase::Parent { id, child, at: 1 };
            let new_user_namespace = Phase::Setup { at: 2 };
            let other_namespaces = Phase::Setup { at: 5 };
            &&& joined.asks(args, settings) == Some(joining(group_path(id), child).request)
            &&& new_user_namespace.asks(args, settings) == Some(
                RequestView::Unshare(Namespaces::User),
            )
            &&& other_namespaces.asks(args, settings) == Some(
                RequestView::Unshare(Namespaces::PidAndNetwork),
            )
            &&& precedes(log, joined, new_user_namespace)
            &&& args.mapping(child).tasks().len() == 3
            &&& forall|k: int|
                0 <= k < 3 ==> {
                    let mapped = Phase::Parent { id, child, at: (4 + k) as usize };
                    &&& mapped.asks(args, settings) == Some(
                        (#[trigger] args.mapping(child).tasks()[k]).request,
                    )
                    &&& precedes(log, new_user_namespace, mapped)
                    &&& precedes(log, mapped, other_namespaces)
                }
        }),
{
    let log = standing(id, child, events, args.line()).log;
    always_in_step(args, settings, id, child, events);
    requests_of_the_runtime(group_path(id), args, child);
    requests_of_the_setup_process();
    let joined = Phase::Parent { id, child, at: 1 };
    let new_user_namespace = Phase::Setup { at: 2 };
    let other_namespaces = Phase::Setup { at: 5 };
    precedence_is_transitive(
        log,
        joined,
        Phase::Parent { id, child, at: 2 },
        Phase::Setup { at: 1 },
    );
    precedence_is_transitive(log, joined, Phase::Setup { at: 1 }, new_user_namespace);
    precedence_is_transitive(
        log,
        new_user_namespace,
        Phase::Setup { at: 3 },
        Phase::Parent { id, child, at: 3 },
    );
    assert forall|k: int| 0 <= k < 3 implies {
        let mapped = Phase::Parent { id, child, at: (4 + k) as usize };
        &&& mapped.asks(args, settings) == Some(
            (#[trigger] args.mapping(child).tasks()[k]).request,
        )
        &&& precedes(log, new_user_namespace, mapped)
        &&& precedes(log, mapped, other_namespaces)
    } by {
        let mapped = Phase::Parent { id, child, at: (4 + k) as usize };
        assert(parent_work(group_path(id), args.mapping(child))[4 + k].request == args.mapping(
            child,
        ).tasks()[k].request);
        precedence_is_transitive(
            log,
            new_user_namespace,
            Phase::Parent { id, child, at: 3 },
            mapped,
        );
        precedence_is_transitive(
            log,
            mapped,
            Phase::Parent { id, child, at: 7 },
            Phase::Setup { at: 4 },
        );
        precedence_is_transitive(log, mapped, Phase::Setup { at: 4 }, other_namespaces);
    }
}

/// The setup process parts from the first process of the container, and that does anything,
/// only after it has joined the control group, is in all its namespaces, and has its IDs
/// mapped.
pub proof fn containers_start_after_their_setup(
    args: RunArgs,
    settings: CgroupSettings,
    id: u64,
    child: i32,
    events: Seq<Event>,
)
    requires
        plausible(id, child, events, args, settings),
        ({
            let phase = standing(id, child, events, args.line()).child;
            phase is ForkingInit || phase is WaitingForInit || phase is Init || phase is Executing
        }),
    ensures
        ({
            let log = standing(id, child, events, args.line()).log;
            &&& forall|k: usize|
                k < PARENT_TASKS ==> #[trigger] behind(log, Phase::Parent { id, child, at: k })
            &&& forall|k: usize|
                k < SETUP_TASKS ==> #[trigger] behind(log, Phase::Setup { at: k })
        }),
{
    let log = standing(id, child, events, args.line()).log;
    always_in_step(args, settings, id, child, events);
    assert(behind(log, Phase::Setup { at: 4 }));
    let j = choose|j: int| 0 <= j < log.len() && #[trigger] log[j] == (Phase::Setup { at: 4 });
    assert(behind(log.take(j), Phase::Parent { id, child, at: 7 }));
    let i = choose|i: int|
        0 <= i < log.take(j).len() && #[trigger] log.take(j)[i] == (Phase::Parent {
            id,
            child,
            at: 7,
        });
    assert(log[i] == (Phase::Parent { id, child, at: 7 }));
    assert forall|k: usize| k < PARENT_TASKS implies #[trigger] behind(
        log,
        Phase::Parent { id, child, at: k },
    ) by {
        if k < 7 {
            assert(precedes(
                log,
                Phase::Parent { id, child, at: k },
                Phase::Parent { id, child, at: 7 },
            ));
            assert(behind(log.take(i), Phase::Parent { id, child, at: k }));
            let h = choose|h: int|
                0 <= h < log.take(i).len() && #[trigger] log.take(i)[h] == (Phase::Parent {
                    id,
                    child,
                    at: k,
                });
            assert(log[h] == (Phase::Parent { id, child, at: k }));
        }
    }
}

/// The processes never wait for each other: at most one waits for a signal that has not been
/// sent, and the runtime does not wait for the end of a setup process that waits for a signal.
pub proof fn startup_never_hangs(
    args: RunArgs,
    settings: CgroupSettings,
    id: u64,
    child: i32,
    events: Seq<Event>,
)
    requires
        plausible(id, child, events, args, settings),
    ensures
        ({
            let w = standing(id, child, events, args.line());
            stuck(w.child, w.log, args, settings) ==> {
                &&& !stuck(w.runtime, w.log, args, settings)
                &&& !(w.runtime is WaitingForSetup)
            }
        }),
{
    let w = standing(id, child, events, args.line());
    always_in_step(args, settings, id, child, events);
    channels_in_phases(w.child, args, settings, id, child);
    channels_in_phases(w.runtime, args, settings, id, child);
    sent_by_the_sender(w, args, settings, id, child, Channel::Cgroup);
    sent_by_the_sender(w, args, settings, id, child, Channel::UserNamespace);
    sent_by_the_sender(w, args, settings, id, child, Channel::Mapping);
    if stuck(w.child, w.log, args, settings) {
        if w.child == (Phase::Setup { at: 1 }) {
            assert(!behind(w.log, Phase::Parent { id, child, at: 2 }));
        } else {
            assert(w.child == (Phase::Setup { at: 4 }));
            assert(behind(w.log, Phase::Setup { at: 3 }));
            assert(!behind(w.log, Phase::Parent { id, child, at: 7 }));
        }
    }
}

} // verus!
