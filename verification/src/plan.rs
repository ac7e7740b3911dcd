//! What each process does on the way to a running container.

use crate::cgroup::{joining, limits, Cgroup, CgroupSettings};
use crate::filesystem::{isolation, PivotRoot};
use crate::mapping::Mapping;
use crate::message::{plain, Message};
use crate::path::FsPath;
use crate::request::{
    add_task, add_tasks, all_within, bare_task, explained_task, put_within, task_views, within,
    Channel, Namespaces, Request, RequestView, Task, TaskView,
};
use vstd::prelude::*;

verus! {

/// Make the pipe of a channel.
pub open spec fn pipe_opening(channel: Channel) -> TaskView {
    explained_task(
        RequestView::OpenPipe(channel),
        plain("create "@ + channel.called() + " pipe"@),
    )
}

/// How many tasks the runtime has before it parts from the setup process.
pub const PREPARATION_TASKS: usize = 6;

/// How many tasks the runtime has for the setup process.
pub const PARENT_TASKS: usize = 8;

/// How many tasks the setup process has.
pub const SETUP_TASKS: usize = 6;

/// How many tasks the first process of the container has.
pub const INIT_TASKS: usize = 13;

/// What the runtime does before it parts from the setup process: limit the group, and make
/// the pipes.
pub open spec fn preparation(group: Seq<u8>, settings: CgroupSettings) -> Seq<TaskView> {
    limits(group, settings) + seq![
        pipe_opening(Channel::Cgroup),
        pipe_opening(Channel::UserNamespace),
        pipe_opening(Channel::Mapping),
    ]
}

/// What the runtime does for the setup process: let it join the group, and map its IDs once it
/// has a user namespace.
pub open spec fn parent_work(group: Seq<u8>, mapping: Mapping) -> Seq<TaskView> {
    seq![
        bare_task(RequestView::KeepParentEnds),
        within(joining(group, mapping.process_id), plain("add setup child to cgroup"@)),
        bare_task(RequestView::Send(Channel::Cgroup)),
        bare_task(RequestView::Receive(Channel::UserNamespace)),
    ] + all_within(mapping.tasks(), plain("map container UID/GID"@)) + seq![
        bare_task(RequestView::Send(Channel::Mapping)),
    ]
}

/// What the setup process does before it parts from the container's first process.
pub open spec fn setup_work() -> Seq<TaskView> {
    seq![
        bare_task(RequestView::KeepChildEnds),
        bare_task(RequestView::Receive(Channel::Cgroup)),
        explained_task(
            RequestView::Unshare(Namespaces::User),
            plain("unshare(CLONE_NEWUSER)"@),
        ),
        bare_task(RequestView::Send(Channel::UserNamespace)),
        bare_task(RequestView::Receive(Channel::Mapping)),
        explained_task(
            RequestView::Unshare(Namespaces::PidAndNetwork),
            plain("unshare(CLONE_NEWPID | CLONE_NEWNET)"@),
        ),
    ]
}

/// What the first process of the container does before it becomes the command.
pub open spec fn init_work(rootfs: Seq<u8>) -> Seq<TaskView> {
    isolation(rootfs) + seq![
        bare_task(RequestView::SetGid(0)),
        bare_task(RequestView::SetUid(0)),
    ]
}

fn open_pipe(channel: Channel) -> (res: Task)
    ensures
        res@ == pipe_opening(channel),
{
    let context: String = String::from_str("create ").concat(channel.stage()).concat(" pipe");
    Task::explained(Request::OpenPipe(channel), Message::text(context.as_str()))
}

/// What the runtime does before it parts from the setup process.
pub fn prepare(group: &Cgroup, settings: &CgroupSettings) -> (res: Vec<Task>)
    ensures
        task_views(res@) == preparation(group.path@, *settings),
        res.len() == PREPARATION_TASKS,
{
    let mut tasks: Vec<Task> = group.configure(settings);
    add_task(&mut tasks, open_pipe(Channel::Cgroup));
    add_task(&mut tasks, open_pipe(Channel::UserNamespace));
    add_task(&mut tasks, open_pipe(Channel::Mapping));
    assert(task_views(tasks@) =~= preparation(group.path@, *settings));
    tasks
}

/// What the runtime does for the setup process.
pub fn setup_parent(group: &Cgroup, mapping: &Mapping) -> (res: Vec<Task>)
    ensures
        task_views(res@) == parent_work(group.path@, *mapping),
        res.len() == PARENT_TASKS,
{
    let mut tasks: Vec<Task> = Vec::new();
    add_task(&mut tasks, Task::bare(Request::KeepParentEnds));
    add_task(
        &mut tasks,
        group.add_pid(mapping.process_id).within(Message::text("add setup child to cgroup")),
    );
    add_task(&mut tasks, Task::bare(Request::Send(Channel::Cgroup)));
    add_task(&mut tasks, Task::bare(Request::Receive(Channel::UserNamespace)));
    add_tasks(&mut tasks, put_within(mapping.map(), "map container UID/GID"));
    add_task(&mut tasks, Task::bare(Request::Send(Channel::Mapping)));
    assert(task_views(tasks@) =~= parent_work(group.path@, *mapping));
    tasks
}

/// What the setup process does before it parts from the container's first process.
pub fn setup_process() -> (res: Vec<Task>)
    ensures
        task_views(res@) == setup_work(),
        res.len() == SETUP_TASKS,
{
    let mut tasks: Vec<Task> = Vec::new();
    add_task(&mut tasks, Task::bare(Request::KeepChildEnds));
    add_task(&mut tasks, Task::bare(Request::Receive(Channel::Cgroup)));
    add_task(
        &mut tasks,
        Task::explained(
            Request::Unshare(Namespaces::User),
            Message::text("unshare(CLONE_NEWUSER)"),
        ),
    );
    add_task(&mut tasks, Task::bare(Request::Send(Channel::UserNamespace)));
    add_task(&mut tasks, Task::bare(Request::Receive(Channel::Mapping)));
    add_task(
        &mut tasks,
        Task::explained(
            Request::Unshare(Namespaces::PidAndNetwork),
            Message::text("unshare(CLONE_NEWPID | CLONE_NEWNET)"),
        ),
    );
    assert(task_views(tasks@) =~= setup_work());
    tasks
}

/// What the first process of the container does before it becomes the command.
pub fn run_init(rootfs: &FsPath) -> (res: Vec<Task>)
    ensures
        task_views(res@) == init_work(rootfs@),
        res.len() == INIT_TASKS,
{
    let mut tasks: Vec<Task> = PivotRoot::new(rootfs.clone()).isolate_filesystem();
    add_task(&mut tasks, Task::bare(Request::SetGid(0)));
    add_task(&mut tasks, Task::bare(Request::SetUid(0)));
    assert(task_views(tasks@) =~= init_work(rootfs@));
    tasks
}

} // verus!
