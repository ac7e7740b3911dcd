//! What the runtime asks of the system, what the system answers, and what is said when it
//! fails.

use crate::message::{message_views, plain, Message, PieceView};
use crate::path::FsPath;
use crate::wait::WaitStatus;
use vstd::prelude::*;

verus! {

/// The pipes between the runtime and the setup process, by what their signal means.
#[derive(Clone, Copy, PartialEq, Eq, Structural, Debug)]
pub enum Channel {
    /// The setup process has joined its cgroup.
    Cgroup,
    /// The setup process has a user namespace of its own.
    UserNamespace,
    /// The IDs of the user namespace are mapped.
    Mapping,
}

/// Namespaces to leave for new ones.
#[derive(Clone, Copy, PartialEq, Eq, Structural, Debug)]
pub enum Namespaces {
    /// The mount namespace.
    Mount,
    /// The user namespace.
    User,
    /// The PID namespace, for later children, and the network namespace.
    PidAndNetwork,
}

/// How a mount is made or changed.
#[derive(Clone, Copy, PartialEq, Eq, Structural, Debug)]
pub enum MountMode {
    /// Keep mounts below the target from reaching other namespaces, recursively.
    MakePrivate,
    /// Show the source at the target, recursively.
    Bind,
    /// Mount without set-user-ID programs, devices and programs.
    Restricted,
}

/// Something that only the system can do.
#[derive(Debug, PartialEq, Eq)]
pub enum Request {
    /// Tell whether the path is a regular file.
    IsFile(FsPath),
    /// Tell whether the path is a directory.
    IsDirectory(FsPath),
    /// Read the whole file as text.
    Read(FsPath),
    /// Replace what is in the file, or make it, with the text.
    Write(FsPath, String),
    /// Make a directory.
    CreateDir(FsPath),
    /// Make a directory, and those above it, where they do not exist.
    CreateDirAll(FsPath),
    /// Remove an empty directory.
    RemoveDir(FsPath),
    /// Move to new namespaces.
    Unshare(Namespaces),
    /// Mount a filesystem, or change a mount.
    Mount {
        source: Option<FsPath>,
        target: FsPath,
        kind: Option<String>,
        mode: MountMode,
    },
    /// Make one mount the root and move the root before it to another place.
    PivotRoot { new_root: FsPath, put_old: FsPath },
    /// Make a directory the root of this process.
    ChangeRoot(FsPath),
    /// Change the working directory.
    ChangeDir(FsPath),
    /// Unmount as soon as nothing uses the mount any more.
    Detach(FsPath),
    /// Take on a group.
    SetGid(u32),
    /// Take on a user.
    SetUid(u32),
    /// Replace this process by a program.
    Execute { program: String, argv: Vec<String> },
    /// Make a pipe.
    OpenPipe(Channel),
    /// Close the ends of the pipes that the setup process uses.
    KeepParentEnds,
    /// Close the ends of the pipes that the runtime uses.
    KeepChildEnds,
    /// Signal over a pipe.
    Send(Channel),
    /// Wait for the signal of a pipe.
    Receive(Channel),
    /// Split this process in two.
    Fork,
    /// Wait until a process ends.
    Wait(i32),
    /// End a process at once.
    Kill(i32),
}

/// What a request holds.
#[verifier::ext_equal]
pub enum RequestView {
    IsFile(Seq<u8>),
    IsDirectory(Seq<u8>),
    Read(Seq<u8>),
    Write(Seq<u8>, Seq<char>),
    CreateDir(Seq<u8>),
    CreateDirAll(Seq<u8>),
    RemoveDir(Seq<u8>),
    Unshare(Namespaces),
    Mount {
        source: Option<Seq<u8>>,
        target: Seq<u8>,
        kind: Option<Seq<char>>,
        mode: MountMode,
    },
    PivotRoot { new_root: Seq<u8>, put_old: Seq<u8> },
    ChangeRoot(Seq<u8>),
    ChangeDir(Seq<u8>),
    Detach(Seq<u8>),
    SetGid(u32),
    SetUid(u32),
    Execute { program: Seq<char>, argv: Seq<Seq<char>> },
    OpenPipe(Channel),
    KeepParentEnds,
    KeepChildEnds,
    Send(Channel),
    Receive(Channel),
    Fork,
    Wait(i32),
    Kill(i32),
}

/// What a list of texts holds.
pub open spec fn text_views(texts: Seq<String>) -> Seq<Seq<char>> {
    texts.map_values(|text: String| text@)
}

impl View for Request {
    type V = RequestView;

    open spec fn view(&self) -> RequestView {
        match self {
            Request::IsFile(path) => RequestView::IsFile(path@),
            Request::IsDirectory(path) => RequestView::IsDirectory(path@),
            Request::Read(path) => RequestView::Read(path@),
            Request::Write(path, text) => RequestView::Write(path@, text@),
            Request::CreateDir(path) => RequestView::CreateDir(path@),
            Request::CreateDirAll(path) => RequestView::CreateDirAll(path@),
            Request::RemoveDir(path) => RequestView::RemoveDir(path@),
            Request::Unshare(namespaces) => RequestView::Unshare(*namespaces),
            Request::Mount { source, target, kind, mode } => RequestView::Mount {
                source: match source {
                    Some(path) => Some(path@),
                    None => None,
                },
                target: target@,
                kind: match kind {
                    Some(text) => Some(text@),
                    None => None,
                },
                mode: *mode,
            },
            Request::PivotRoot { new_root, put_old } => RequestView::PivotRoot {
                new_root: new_root@,
                put_old: put_old@,
            },
            Request::ChangeRoot(path) => RequestView::ChangeRoot(path@),
            Request::ChangeDir(path) => RequestView::ChangeDir(path@),
            Request::Detach(path) => RequestView::Detach(path@),
            Request::SetGid(gid) => RequestView::SetGid(*gid),
            Request::SetUid(uid) => RequestView::SetUid(*uid),
            Request::Execute { program, argv } => RequestView::Execute {
                program: program@,
                argv: text_views(argv@),
            },
            Request::OpenPipe(channel) => RequestView::OpenPipe(*channel),
            Request::KeepParentEnds => RequestView::KeepParentEnds,
            Request::KeepChildEnds => RequestView::KeepChildEnds,
            Request::Send(channel) => RequestView::Send(*channel),
            Request::Receive(channel) => RequestView::Receive(*channel),
            Request::Fork => RequestView::Fork,
            Request::Wait(pid) => RequestView::Wait(*pid),
            Request::Kill(pid) => RequestView::Kill(*pid),
        }
    }
}

/// What the system answers to a request.
#[derive(Debug, PartialEq, Eq)]
pub enum Reply {
    /// It is done.
    Done,
    /// It failed.
    Failed,
    /// The answer to a question.
    Answer(bool),
    /// What a file holds.
    Text(String),
    /// This process was split, and is the one that goes on; `child` is the new one.
    Parent { child: i32 },
    /// This process is the new one.
    Child,
    /// How a process ended.
    Waited(WaitStatus),
}

/// The reply grants what was asked for.
pub open spec fn grants(reply: Reply) -> bool {
    !(reply is Failed) && reply != Reply::Answer(false)
}

/// The reply is one that the request can have.
pub open spec fn answers(request: RequestView, reply: Reply) -> bool {
    match request {
        RequestView::IsFile(_) | RequestView::IsDirectory(_) => reply is Answer,
        RequestView::Read(_) => reply is Text || reply is Failed,
        RequestView::Fork => reply is Parent || reply is Child || reply is Failed,
        RequestView::Wait(_) => reply is Failed || (reply matches Reply::Waited(status)
            && status.valid()),
        RequestView::Execute { .. } => reply is Failed,
        _ => reply is Done || reply is Failed,
    }
}

/// Tells whether the reply is one that the request can have.
pub fn is_answered_by(request: &Request, reply: &Reply) -> (res: bool)
    ensures
        res == answers(request@, *reply),
{
    match request {
        Request::IsFile(_) | Request::IsDirectory(_) => match reply {
            Reply::Answer(_) => true,
            _ => false,
        },
        Request::Read(_) => match reply {
            Reply::Text(_) | Reply::Failed => true,
            _ => false,
        },
        Request::Fork => match reply {
            Reply::Parent { .. } | Reply::Child | Reply::Failed => true,
            _ => false,
        },
        Request::Wait(_) => match reply {
            Reply::Failed => true,
            Reply::Waited(status) => status.is_valid(),
            _ => false,
        },
        Request::Execute { .. } => match reply {
            Reply::Failed => true,
            _ => false,
        },
        _ => match reply {
            Reply::Done | Reply::Failed => true,
            _ => false,
        },
    }
}

/// A request, and what is put before the system's error, the innermost first, when it fails.
#[derive(Debug, PartialEq, Eq)]
pub struct Task {
    pub request: Request,
    pub contexts: Vec<Message>,
}

/// What a task holds.
#[verifier::ext_equal]
pub struct TaskView {
    pub request: RequestView,
    pub contexts: Seq<Seq<PieceView>>,
}

impl View for Task {
    type V = TaskView;

    open spec fn view(&self) -> TaskView {
        TaskView { request: self.request@, contexts: message_views(self.contexts@) }
    }
}

/// What the tasks hold, one for each.
pub open spec fn task_views(tasks: Seq<Task>) -> Seq<TaskView> {
    tasks.map_values(|task: Task| task@)
}

/// A task whose failure is not explained further.
pub open spec fn bare_task(request: RequestView) -> TaskView {
    TaskView { request, contexts: Seq::empty() }
}

/// A task whose failure is explained by one message.
pub open spec fn explained_task(request: RequestView, context: Seq<PieceView>) -> TaskView {
    TaskView { request, contexts: seq![context] }
}

/// The task with one more message around what it says on failure.
pub open spec fn within(task: TaskView, context: Seq<PieceView>) -> TaskView {
    TaskView { request: task.request, contexts: task.contexts.push(context) }
}

impl Task {
    /// A task whose failure is not explained further.
    pub fn bare(request: Request) -> (res: Task)
        ensures
            res@ == bare_task(request@),
    {
        let res: Task = Task { request, contexts: Vec::new() };
        assert(res@.contexts =~= Seq::<Seq<PieceView>>::empty());
        res
    }

    /// The task with one more message around what it says on failure.
    pub fn within(self, context: Message) -> (res: Task)
        ensures
            res@ == within(self@, context@),
    {
        let mut contexts: Vec<Message> = self.contexts;
        contexts.push(context);
        let res: Task = Task { request: self.request, contexts };
        assert(res@.contexts =~= self@.contexts.push(context@));
        res
    }

    /// A task whose failure is explained by one message.
    pub fn explained(request: Request, context: Message) -> (res: Task)
        ensures
            res@ == explained_task(request@, context@),
    {
        let res: Task = Task::bare(request).within(context);
        assert(res@.contexts =~= seq![context@]);
        res
    }
}

/// Adds a task at the end of a list.
pub fn add_task(tasks: &mut Vec<Task>, task: Task)
    ensures
        task_views(final(tasks)@) == task_views(old(tasks)@).push(task@),
{
    tasks.push(task);
    assert(task_views(tasks@) =~= task_views(old(tasks)@).push(task@));
}

/// Adds tasks at the end of a list.
pub fn add_tasks(tasks: &mut Vec<Task>, more: Vec<Task>)
    ensures
        task_views(final(tasks)@) == task_views(old(tasks)@) + task_views(more@),
{
    let mut rest: Vec<Task> = more;
    tasks.append(&mut rest);
    assert(task_views(tasks@) =~= task_views(old(tasks)@) + task_views(more@));
}

/// Takes one task out of a list.
pub fn pick_task(tasks: Vec<Task>, at: usize) -> (res: Task)
    requires
        at < tasks.len(),
    ensures
        res@ == task_views(tasks@)[at as int],
{
    let mut rest: Vec<Task> = tasks;
    rest.swap_remove(at)
}

/// The tasks, each with one more message around what it says on failure.
pub open spec fn all_within(tasks: Seq<TaskView>, context: Seq<PieceView>) -> Seq<TaskView> {
    tasks.map_values(|task: TaskView| within(task, context))
}

/// The tasks, each with one more text around what it says on failure.
pub fn put_within(tasks: Vec<Task>, text: &str) -> (res: Vec<Task>)
    ensures
        task_views(res@) == all_within(task_views(tasks@), plain(text@)),
{
    let ghost given = task_views(tasks@);
    let mut rest: Vec<Task> = tasks;
    let mut res: Vec<Task> = Vec::new();
    assert(given.skip(0) =~= given);
    assert(task_views(res@) =~= all_within(given, plain(text@)).take(0));
    while rest.len() > 0
        invariant
            res@.len() + rest@.len() == given.len(),
            task_views(rest@) == given.skip(res@.len() as int),
            task_views(res@) == all_within(given, plain(text@)).take(res@.len() as int),
        decreases rest.len(),
    {
        let ghost before = res@;
        let ghost left = rest@;
        let task: Task = rest.remove(0);
        assert(task@ == task_views(left)[0]);
        add_task(&mut res, task.within(Message::text(text)));
        proof {
            assert(task_views(res@).len() == before.len() + 1);
            assert(task_views(rest@) =~= task_views(left).skip(1));
            assert(given.skip(before.len() as int).skip(1) =~= given.skip(
                (before.len() + 1) as int,
            ));
            assert(task_views(res@) =~= all_within(given, plain(text@)).take(
                (before.len() + 1) as int,
            ));
        }
    }
    assert(task_views(res@) =~= all_within(given, plain(text@)));
    res
}

/// What is said when the runtime gives up.
#[derive(Debug, PartialEq, Eq)]
pub struct Failure {
    /// The error itself, or nothing where it is the error that the failed request met.
    pub cause: Option<Message>,
    /// What is put before the error, the innermost first.
    pub contexts: Vec<Message>,
}

/// What a failure holds.
#[verifier::ext_equal]
pub struct FailureView {
    pub cause: Option<Seq<PieceView>>,
    pub contexts: Seq<Seq<PieceView>>,
}

impl View for Failure {
    type V = FailureView;

    open spec fn view(&self) -> FailureView {
        FailureView {
            cause: match self.cause {
                Some(message) => Some(message@),
                None => None,
            },
            contexts: message_views(self.contexts@),
        }
    }
}

/// The system's error, with the messages that are put before it.
pub open spec fn system_error(contexts: Seq<Seq<PieceView>>) -> FailureView {
    FailureView { cause: None, contexts }
}

impl Task {
    /// What is said when the task fails.
    pub fn failure(self) -> (res: Failure)
        ensures
            res@ == system_error(self@.contexts),
    {
        Failure::of_system(self.contexts)
    }
}

impl Failure {
    /// The system's error, explained by the messages.
    pub fn of_system(contexts: Vec<Message>) -> (res: Failure)
        ensures
            res@ == system_error(message_views(contexts@)),
    {
        Failure { cause: None, contexts }
    }

    /// An error of the runtime's own.
    pub fn of_runtime(cause: Message) -> (res: Failure)
        ensures
            res@ == (FailureView { cause: Some(cause@), contexts: Seq::empty() }),
    {
        let res: Failure = Failure { cause: Some(cause), contexts: Vec::new() };
        assert(res@.contexts =~= Seq::<Seq<PieceView>>::empty());
        res
    }
}

/// A request holds what it was made with.
pub proof fn requests_hold_what_they_are_about(request: Request)
    ensures
        request matches Request::IsFile(path) ==> request@ == RequestView::IsFile(path.bytes@),
        request matches Request::IsDirectory(path) ==> request@ == RequestView::IsDirectory(
            path.bytes@,
        ),
        request matches Request::Read(path) ==> request@ == RequestView::Read(path.bytes@),
        request matches Request::Write(path, text) ==> request@ == RequestView::Write(
            path.bytes@,
            text@,
        ),
        request matches Request::CreateDir(path) ==> request@ == RequestView::CreateDir(
            path.bytes@,
        ),
        request matches Request::CreateDirAll(path) ==> request@ == RequestView::CreateDirAll(
            path.bytes@,
        ),
        request matches Request::RemoveDir(path) ==> request@ == RequestView::RemoveDir(
            path.bytes@,
        ),
        request matches Request::PivotRoot { new_root, put_old } ==> request@ == (
        RequestView::PivotRoot { new_root: new_root.bytes@, put_old: put_old.bytes@ }),
        request matches Request::ChangeRoot(path) ==> request@ == RequestView::ChangeRoot(
            path.bytes@,
        ),
        request matches Request::ChangeDir(path) ==> request@ == RequestView::ChangeDir(
            path.bytes@,
        ),
        request matches Request::Detach(path) ==> request@ == RequestView::Detach(path.bytes@),
        request matches Request::Mount { source, target, kind, mode } ==> {
            &&& request@ matches RequestView::Mount {
                source: from,
                target: to,
                kind: sort,
                mode: manner,
            }
            &&& source is None <==> from is None
            &&& source matches Some(path) ==> from == Some(path.bytes@)
            &&& to == target.bytes@
            &&& kind is None <==> sort is None
            &&& kind matches Some(text) ==> sort == Some(text@)
            &&& manner == mode
        },
        request matches Request::Execute { program, argv } ==> {
            &&& request@ matches RequestView::Execute { program: name, argv: line }
            &&& name == program@
            &&& line.len() == argv@.len()
            &&& forall|i: int| 0 <= i < argv@.len() ==> line[i] == #[trigger] argv@[i]@
        },
        request matches Request::Unshare(namespaces) ==> request@ == RequestView::Unshare(
            namespaces,
        ),
        request matches Request::SetGid(gid) ==> request@ == RequestView::SetGid(gid),
        request matches Request::SetUid(uid) ==> request@ == RequestView::SetUid(uid),
        request matches Request::OpenPipe(channel) ==> request@ == RequestView::OpenPipe(channel),
        request matches Request::Send(channel) ==> request@ == RequestView::Send(channel),
        request matches Request::Receive(channel) ==> request@ == RequestView::Receive(channel),
        request matches Request::Wait(pid) ==> request@ == RequestView::Wait(pid),
        request matches Request::Kill(pid) ==> request@ == RequestView::Kill(pid),
{
}

/// A question is answered, a file is read or not, a split gives two processes or none, waiting
/// reports a status or fails, a program that is started does not come back, and all else is
/// done or fails.
pub proof fn requests_take_their_own_replies(request: RequestView, reply: Reply)
    ensures
        request is IsFile || request is IsDirectory ==> (answers(request, reply) <==> reply
            is Answer),
        request is Read ==> (answers(request, reply) <==> reply is Text || reply is Failed),
        request is Fork ==> (answers(request, reply) <==> reply is Parent || reply is Child || reply
            is Failed),
        request is Execute ==> (answers(request, reply) <==> reply is Failed),
        request is Wait ==> (answers(request, reply) <==> reply is Failed || (
        reply matches Reply::Waited(status) && (status matches WaitStatus::Signaled { signal, .. }
            ==> 0 <= signal < 128))),
        !(request is IsFile || request is IsDirectory || request is Read || request is Fork
            || request is Execute || request is Wait) ==> (answers(request, reply) <==> reply
            is Done || reply is Failed),
        grants(reply) <==> !(reply is Failed) && !(reply matches Reply::Answer(yes) && !yes),
{
}

/// A task holds its request and what is said of it, and saying more of it changes nothing else.
pub proof fn tasks_keep_their_requests(
    request: RequestView,
    tasks: Seq<TaskView>,
    context: Seq<PieceView>,
    i: int,
)
    requires
        0 <= i < tasks.len(),
    ensures
        bare_task(request).request == request,
        bare_task(request).contexts.len() == 0,
        explained_task(request, context).request == request,
        explained_task(request, context).contexts == seq![context],
        all_within(tasks, context).len() == tasks.len(),
        all_within(tasks, context)[i].request == tasks[i].request,
        all_within(tasks, context)[i].contexts == tasks[i].contexts.push(context),
        within(tasks[i], context).request == tasks[i].request,
        within(tasks[i], context).contexts == tasks[i].contexts.push(context),
{
}

/// Lists of tasks and of texts hold each of their elements, in their order.
pub proof fn lists_hold_all_their_elements(tasks: Seq<Task>, texts: Seq<String>, i: int)
    ensures
        task_views(tasks).len() == tasks.len(),
        0 <= i < tasks.len() ==> task_views(tasks)[i].request == tasks[i].request@,
        0 <= i < tasks.len() ==> task_views(tasks)[i].contexts.len() == tasks[i].contexts@.len(),
        text_views(texts).len() == texts.len(),
        0 <= i < texts.len() ==> text_views(texts)[i] == texts[i]@,
{
}

} // verus!
