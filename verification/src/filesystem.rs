//! Giving a process a filesystem of its own.

use crate::message::{plain, Message, Piece, PieceView};
use crate::path::{file_in, joined, names_are_found_below_their_directory, FsPath};
use crate::procedure::{asked, result, ungranted_tasks_stop_the_list};
use crate::request::{
    add_task, answers, bare_task, explained_task, grants, system_error, task_views, Failure,
    FailureView, MountMode, Namespaces, Reply, Request, RequestView, Task, TaskView,
};
use vstd::prelude::*;
use vstd::utf8::{encode_utf8, is_ascii_chars_encode_utf8};

verus! {

/// A root filesystem that is not a directory.
#[derive(Debug, PartialEq, Eq)]
pub struct RootfsError {
    pub rootfs: FsPath,
}

/// What is said of a root filesystem that is not a directory.
pub open spec fn rootfs_message(rootfs: Seq<u8>) -> Seq<PieceView> {
    seq![
        PieceView::Text("rootfs "@),
        PieceView::QuotedPath(rootfs),
        PieceView::Text(" does not exist or is not a directory"@),
    ]
}

/// The error that a root filesystem is not a directory.
pub open spec fn rootfs_failure(rootfs: Seq<u8>) -> FailureView {
    FailureView { cause: Some(rootfs_message(rootfs)), contexts: seq![] }
}

impl RootfsError {
    /// The error itself.
    pub fn failure(&self) -> (res: Failure)
        ensures
            res@ == rootfs_failure(self.rootfs@),
    {
        Failure::of_runtime(self.message())
    }

    /// What is said of the error.
    pub fn message(&self) -> (res: Message)
        ensures
            res@ == rootfs_message(self.rootfs@),
    {
        let res: Message = Message::text("rootfs ")
            .with(Piece::QuotedPath(self.rootfs.clone()))
            .then_text(" does not exist or is not a directory");
        assert(res@ =~= rootfs_message(self.rootfs@));
        res
    }
}

/// Leave the mount namespace, and keep later mounts from reaching the one that was left.
pub open spec fn private_mount_namespace() -> Seq<TaskView> {
    seq![
        explained_task(
            RequestView::Unshare(Namespaces::Mount),
            plain("unshare(CLONE_NEWNS)"@),
        ),
        explained_task(
            RequestView::Mount {
                source: None,
                target: encode_utf8("/"@),
                kind: None,
                mode: MountMode::MakePrivate,
            },
            plain("mount / MS_REC|MS_PRIVATE"@),
        ),
    ]
}

/// Mount `rootfs` onto itself, so that it is a mount point.
pub open spec fn bind_rootfs(rootfs: Seq<u8>) -> TaskView {
    explained_task(
        RequestView::Mount {
            source: Some(rootfs),
            target: rootfs,
            kind: None,
            mode: MountMode::Bind,
        },
        seq![
            PieceView::Text("bind mount "@),
            PieceView::QuotedPath(rootfs),
            PieceView::Text(" onto itself"@),
        ],
    )
}

/// Mount a fresh `proc` filesystem on `target`.
pub open spec fn proc_mount(target: Seq<u8>) -> RequestView {
    RequestView::Mount {
        source: Some(encode_utf8("proc"@)),
        target,
        kind: Some("proc"@),
        mode: MountMode::Restricted,
    }
}

/// Mount a fresh `proc` filesystem inside `rootfs`.
pub open spec fn proc_in_rootfs(rootfs: Seq<u8>) -> Seq<TaskView> {
    let target = file_in(rootfs, "proc"@);
    seq![
        explained_task(
            RequestView::CreateDirAll(target),
            seq![PieceView::Text("create "@), PieceView::PlainPath(target)],
        ),
        explained_task(
            proc_mount(target),
            seq![PieceView::Text("mount proc on "@), PieceView::QuotedPath(target)],
        ),
    ]
}

/// Mount a fresh `proc` filesystem on `/proc`.
pub open spec fn proc_in_root() -> Seq<TaskView> {
    seq![
        explained_task(RequestView::CreateDirAll(encode_utf8("/proc"@)), plain("create /proc"@)),
        explained_task(proc_mount(encode_utf8("/proc"@)), plain("mount /proc"@)),
    ]
}

/// Make `rootfs` the root, go there, and let go of the root before it.
pub open spec fn pivot_into(rootfs: Seq<u8>) -> Seq<TaskView> {
    let old_root = file_in(rootfs, ".old"@);
    seq![
        explained_task(
            RequestView::CreateDirAll(old_root),
            seq![PieceView::Text("create_dir_all "@), PieceView::QuotedPath(old_root)],
        ),
        explained_task(
            RequestView::PivotRoot { new_root: rootfs, put_old: old_root },
            seq![
                PieceView::Text("pivot_root("@),
                PieceView::QuotedPath(rootfs),
                PieceView::Text(", "@),
                PieceView::QuotedPath(old_root),
                PieceView::Text(")"@),
            ],
        ),
        explained_task(
            RequestView::ChangeDir(encode_utf8("/"@)),
            plain("chdir(\"/\") after pivot_root"@),
        ),
        explained_task(RequestView::Detach(encode_utf8("/.old"@)), plain("umount2(/.old)"@)),
        explained_task(RequestView::RemoveDir(encode_utf8("/.old"@)), plain("remove_dir(/.old)"@)),
    ]
}

/// Everything that isolates a filesystem below `rootfs`, beginning with the question whether
/// that is a directory.
pub open spec fn isolation(rootfs: Seq<u8>) -> Seq<TaskView> {
    seq![bare_task(RequestView::IsDirectory(rootfs))] + private_mount_namespace() + seq![
        bind_rootfs(rootfs),
    ] + proc_in_rootfs(rootfs) + pivot_into(rootfs)
}

/// Everything that isolates a filesystem below `rootfs`, with `proc` mounted last.
pub open spec fn isolation_with_late_proc(rootfs: Seq<u8>) -> Seq<TaskView> {
    private_mount_namespace() + seq![bind_rootfs(rootfs)] + pivot_into(rootfs) + proc_in_root()
}

/// Everything that confines a process to `rootfs` without namespaces.
pub open spec fn confinement(rootfs: Seq<u8>) -> Seq<TaskView> {
    seq![
        explained_task(
            RequestView::ChangeRoot(rootfs),
            seq![PieceView::Text("chroot "@), PieceView::QuotedPath(rootfs)],
        ),
        explained_task(
            RequestView::ChangeDir(encode_utf8("/"@)),
            plain("chdir(\"/\") after chroot"@),
        ),
    ]
}

fn add_bind(tasks: &mut Vec<Task>, rootfs: &FsPath)
    ensures
        task_views(final(tasks)@) == task_views(old(tasks)@).push(bind_rootfs(rootfs@)),
{
    let context: Message = Message::text("bind mount ")
        .with(Piece::QuotedPath(rootfs.clone()))
        .then_text(" onto itself");
    assert(context@ =~= bind_rootfs(rootfs@).contexts[0]);
    add_task(
        tasks,
        Task::explained(
            Request::Mount {
                source: Some(rootfs.clone()),
                target: rootfs.clone(),
                kind: None,
                mode: MountMode::Bind,
            },
            context,
        ),
    );
}

fn proc_mount_request(target: FsPath) -> (res: Request)
    ensures
        res@ == proc_mount(target@),
{
    Request::Mount {
        source: Some(FsPath::from_text("proc")),
        target,
        kind: Some(String::from_str("proc")),
        mode: MountMode::Restricted,
    }
}

fn add_proc_in_root(tasks: &mut Vec<Task>)
    ensures
        task_views(final(tasks)@) == task_views(old(tasks)@) + proc_in_root(),
{
    add_task(
        tasks,
        Task::explained(
            Request::CreateDirAll(FsPath::from_text("/proc")),
            Message::text("create /proc"),
        ),
    );
    add_task(
        tasks,
        Task::explained(
            proc_mount_request(FsPath::from_text("/proc")),
            Message::text("mount /proc"),
        ),
    );
    assert(task_views(tasks@) =~= task_views(old(tasks)@) + proc_in_root());
}

/// The root filesystem of a container.
#[derive(Debug, PartialEq, Eq)]
pub struct PivotRoot {
    pub rootfs: FsPath,
}

impl PivotRoot {
    /// The filesystem below the directory `rootfs`.
    pub fn new(rootfs: FsPath) -> (res: PivotRoot)
        ensures
            res.rootfs == rootfs,
    {
        PivotRoot { rootfs }
    }

    /// Everything that isolates the filesystem: a mount namespace of its own, `rootfs` as the
    /// root, and the root before it let go.
    pub fn isolate_filesystem(&self) -> (res: Vec<Task>)
        ensures
            task_views(res@) == isolation(self.rootfs@),
    {
        let mut tasks: Vec<Task> = Vec::new();
        add_task(&mut tasks, Task::bare(Request::IsDirectory(self.rootfs.clone())));
        self.set_private_mount_namespace(&mut tasks);
        add_bind(&mut tasks, &self.rootfs);
        self.mount_proc(&mut tasks);
        self.pivot_root(&mut tasks);
        assert(task_views(tasks@) =~= isolation(self.rootfs@));
        tasks
    }

    /// Accepts the root filesystem if it is a directory.
    pub fn validate_rootfs(&self, is_directory: bool) -> (res: Result<(), RootfsError>)
        ensures
            res is Ok <==> is_directory,
            res matches Err(error) ==> error.rootfs@ == self.rootfs@,
    {
        if is_directory {
            Ok(())
        } else {
            Err(RootfsError { rootfs: self.rootfs.clone() })
        }
    }

    fn set_private_mount_namespace(&self, tasks: &mut Vec<Task>)
        ensures
            task_views(final(tasks)@) == task_views(old(tasks)@) + private_mount_namespace(),
    {
        add_task(
            tasks,
            Task::explained(
                Request::Unshare(Namespaces::Mount),
                Message::text("unshare(CLONE_NEWNS)"),
            ),
        );
        add_task(
            tasks,
            Task::explained(
                Request::Mount {
                    source: None,
                    target: FsPath::from_text("/"),
                    kind: None,
                    mode: MountMode::MakePrivate,
                },
                Message::text("mount / MS_REC|MS_PRIVATE"),
            ),
        );
        assert(task_views(tasks@) =~= task_views(old(tasks)@) + private_mount_namespace());
    }

    fn mount_proc(&self, tasks: &mut Vec<Task>)
        ensures
            task_views(final(tasks)@) == task_views(old(tasks)@) + proc_in_rootfs(self.rootfs@),
    {
        let target: FsPath = self.rootfs.join("proc");
        let creating: Message = Message::text("create ").with(Piece::PlainPath(target.clone()));
        let mounting: Message = Message::text("mount proc on ").with(
            Piece::QuotedPath(target.clone()),
        );
        assert(creating@ =~= proc_in_rootfs(self.rootfs@)[0].contexts[0]);
        assert(mounting@ =~= proc_in_rootfs(self.rootfs@)[1].contexts[0]);
        add_task(tasks, Task::explained(Request::CreateDirAll(target.clone()), creating));
        add_task(tasks, Task::explained(proc_mount_request(target), mounting));
        assert(task_views(tasks@) =~= task_views(old(tasks)@) + proc_in_rootfs(self.rootfs@));
    }

    fn pivot_root(&self, tasks: &mut Vec<Task>)
        ensures
            task_views(final(tasks)@) == task_views(old(tasks)@) + pivot_into(self.rootfs@),
    {
        let old_root: FsPath = self.rootfs.join(".old");
        let creating: Message = Message::text("create_dir_all ").with(
            Piece::QuotedPath(old_root.clone()),
        );
        let pivoting: Message = Message::text("pivot_root(")
            .with(Piece::QuotedPath(self.rootfs.clone()))
            .then_text(", ")
            .with(Piece::QuotedPath(old_root.clone()))
            .then_text(")");
        assert(creating@ =~= pivot_into(self.rootfs@)[0].contexts[0]);
        assert(pivoting@ =~= pivot_into(self.rootfs@)[1].contexts[0]);
        add_task(tasks, Task::explained(Request::CreateDirAll(old_root.clone()), creating));
        add_task(
            tasks,
            Task::explained(
                Request::PivotRoot { new_root: self.rootfs.clone(), put_old: old_root },
                pivoting,
            ),
        );
        add_task(
            tasks,
            Task::explained(
                Request::ChangeDir(FsPath::from_text("/")),
                Message::text("chdir(\"/\") after pivot_root"),
            ),
        );
        add_task(
            tasks,
            Task::explained(
                Request::Detach(FsPath::from_text("/.old")),
                Message::text("umount2(/.old)"),
            ),
        );
        add_task(
            tasks,
            Task::explained(
                Request::RemoveDir(FsPath::from_text("/.old")),
                Message::text("remove_dir(/.old)"),
            ),
        );
        assert(task_views(tasks@) =~= task_views(old(tasks)@) + pivot_into(self.rootfs@));
    }
}

/// Everything that isolates the filesystem below `rootfs`, with `proc` mounted once the root
/// before it is gone.
pub fn isolate_fs_pivot(rootfs: &FsPath) -> (res: Vec<Task>)
    ensures
        task_views(res@) == isolation_with_late_proc(rootfs@),
{
    let mut tasks: Vec<Task> = Vec::new();
    let root: PivotRoot = PivotRoot::new(rootfs.clone());
    root.set_private_mount_namespace(&mut tasks);
    add_bind(&mut tasks, rootfs);
    root.pivot_root(&mut tasks);
    add_proc_in_root(&mut tasks);
    assert(task_views(tasks@) =~= isolation_with_late_proc(rootfs@));
    tasks
}

/// Confines the process to `rootfs` by its root directory alone. The mounts of the host stay
/// in reach of a process that keeps a directory open outside.
pub fn isolate_fs_chroot(rootfs: &FsPath) -> (res: Vec<Task>)
    ensures
        task_views(res@) == confinement(rootfs@),
{
    let mut tasks: Vec<Task> = Vec::new();
    let context: Message = Message::text("chroot ").with(Piece::QuotedPath(rootfs.clone()));
    assert(context@ =~= confinement(rootfs@)[0].contexts[0]);
    add_task(&mut tasks, Task::explained(Request::ChangeRoot(rootfs.clone()), context));
    add_task(
        &mut tasks,
        Task::explained(
            Request::ChangeDir(FsPath::from_text("/")),
            Message::text("chdir(\"/\") after chroot"),
        ),
    );
    assert(task_views(tasks@) =~= confinement(rootfs@));
    tasks
}

/// The request makes, changes or takes away a mount.
pub open spec fn touches_mounts(request: RequestView) -> bool {
    request is Mount || request is PivotRoot || request is Detach
}

/// The request keeps the mounts below the root from reaching other namespaces.
pub open spec fn makes_root_private(request: RequestView) -> bool {
    request == RequestView::Mount {
        source: None,
        target: encode_utf8("/"@),
        kind: None,
        mode: MountMode::MakePrivate,
    }
}

/// The mounts are touched at `i` only in a mount namespace of the process's own, and only
/// once nothing reaches other namespaces any more.
pub open spec fn mounts_are_private_at(tasks: Seq<TaskView>, i: int) -> bool {
    exists|j: int|
        #![trigger tasks[j]]
        {
            &&& 0 <= j < i
            &&& tasks[j].request == RequestView::Unshare(Namespaces::Mount)
            &&& makes_root_private(tasks[j + 1].request)
        }
}

/// Right after the root is changed at `i`, the process goes to the new root and lets go of
/// the root before it.
pub open spec fn old_root_is_dropped_after(tasks: Seq<TaskView>, i: int) -> bool {
    &&& i + 3 < tasks.len()
    &&& tasks[i + 1].request == RequestView::ChangeDir(encode_utf8("/"@))
    &&& tasks[i + 2].request == RequestView::Detach(encode_utf8("/.old"@))
    &&& tasks[i + 3].request == RequestView::RemoveDir(encode_utf8("/.old"@))
}

/// No mount of the isolated process reaches the host, with either way to isolate it.
pub proof fn mounts_never_reach_the_host(rootfs: Seq<u8>)
    ensures
        forall|i: int|
            0 <= i < isolation(rootfs).len() && touches_mounts(
                #[trigger] isolation(rootfs)[i].request,
            ) ==> mounts_are_private_at(isolation(rootfs), i),
        forall|i: int|
            0 <= i < isolation_with_late_proc(rootfs).len() && touches_mounts(
                #[trigger] isolation_with_late_proc(rootfs)[i].request,
            ) ==> mounts_are_private_at(isolation_with_late_proc(rootfs), i),
{
    let early = isolation(rootfs);
    let late = isolation_with_late_proc(rootfs);
    assert(early[1].request == RequestView::Unshare(Namespaces::Mount));
    assert(makes_root_private(early[2].request));
    assert(late[0].request == RequestView::Unshare(Namespaces::Mount));
    assert(makes_root_private(late[1].request));
}

/// The root of the host goes out of reach, with either way to isolate a process: it is moved
/// below the new root, and let go there.
pub proof fn host_root_goes_out_of_reach(rootfs: Seq<u8>)
    ensures
        isolation(rootfs)[7].request == (RequestView::PivotRoot {
            new_root: rootfs,
            put_old: file_in(rootfs, ".old"@),
        }),
        old_root_is_dropped_after(isolation(rootfs), 7),
        isolation_with_late_proc(rootfs)[4].request == (RequestView::PivotRoot {
            new_root: rootfs,
            put_old: file_in(rootfs, ".old"@),
        }),
        old_root_is_dropped_after(isolation_with_late_proc(rootfs), 4),
{
}

/// Nothing is done to the system before the root filesystem is known to be a directory.
pub proof fn rootfs_is_asked_for_first(rootfs: Seq<u8>)
    ensures
        isolation(rootfs).len() == 11,
        isolation(rootfs)[0].request == RequestView::IsDirectory(rootfs),
        forall|i: int|
            0 < i < isolation(rootfs).len() ==> !(
            #[trigger] isolation(rootfs)[i].request is IsDirectory),
{
}

/// What isolating the filesystem comes to after all replies: nothing while it goes on, and
/// then success, the error of the task that failed, or the error that `rootfs` is not a
/// directory.
pub open spec fn isolation_result(rootfs: Seq<u8>, replies: Seq<Reply>) -> Option<
    Result<(), FailureView>,
> {
    result(isolation(rootfs), replies, rootfs_failure(rootfs))
}

/// If `rootfs` is not a directory, isolating the filesystem asks for nothing but that: it
/// comes to the error that says so, whatever is replied later.
pub proof fn only_directories_are_isolated(rootfs: Seq<u8>, later: Seq<Reply>)
    ensures
        asked(isolation(rootfs), seq![]) == Some(RequestView::IsDirectory(rootfs)),
        asked(isolation(rootfs), seq![Reply::Answer(false)] + later) is None,
        isolation_result(rootfs, seq![Reply::Answer(false)] + later) == Some(
            Err::<(), FailureView>(rootfs_failure(rootfs)),
        ),
{
    let refused = seq![Reply::Answer(false)];
    ungranted_tasks_stop_the_list(isolation(rootfs), refused, 0, later, rootfs_failure(rootfs));
    assert(refused.take(0) =~= Seq::<Reply>::empty());
}

/// Everything that isolates a filesystem below `rootfs`, in either way.
pub open spec fn either_isolation(rootfs: Seq<u8>, late_proc: bool) -> Seq<TaskView> {
    if late_proc {
        isolation_with_late_proc(rootfs)
    } else {
        isolation(rootfs)
    }
}

/// When a task fails while the filesystem is isolated, in either way, the isolation comes to
/// the error of that task, and no later task is asked for. A mount was touched only if the
/// process had a mount namespace of its own, and the root was private in it.
pub proof fn failed_isolations_stop(
    rootfs: Seq<u8>,
    late_proc: bool,
    replies: Seq<Reply>,
    at: int,
    later: Seq<Reply>,
)
    requires
        0 <= at < either_isolation(rootfs, late_proc).len(),
        replies.len() == at + 1,
        replies[at] is Failed,
        forall|i: int| 0 <= i < at ==> grants(#[trigger] replies[i]),
    ensures
        ({
            let tasks = either_isolation(rootfs, late_proc);
            &&& asked(tasks, replies + later) is None
            &&& result(tasks, replies + later, rootfs_failure(rootfs)) == Some(
                Err::<(), FailureView>(system_error(tasks[at].contexts)),
            )
            &&& forall|i: int|
                0 <= i <= at && touches_mounts(#[trigger] tasks[i].request)
                    ==> mounts_are_private_at(tasks, i)
        }),
{
    let tasks = either_isolation(rootfs, late_proc);
    ungranted_tasks_stop_the_list(tasks, replies, at, later, rootfs_failure(rootfs));
    mounts_never_reach_the_host(rootfs);
}

/// When a task fails while a process is confined by its root directory alone, that comes to
/// the error of the task, and no later task is asked for.
pub proof fn failed_confinements_stop(
    rootfs: Seq<u8>,
    replies: Seq<Reply>,
    at: int,
    later: Seq<Reply>,
)
    requires
        0 <= at < confinement(rootfs).len(),
        replies.len() == at + 1,
        replies[at] is Failed,
        forall|i: int| 0 <= i < at ==> grants(#[trigger] replies[i]),
    ensures
        asked(confinement(rootfs), replies + later) is None,
        result(confinement(rootfs), replies + later, rootfs_failure(rootfs)) == Some(
            Err::<(), FailureView>(system_error(confinement(rootfs)[at].contexts)),
        ),
{
    ungranted_tasks_stop_the_list(
        confinement(rootfs),
        replies,
        at,
        later,
        rootfs_failure(rootfs),
    );
}

/// Isolating the filesystem with `proc` mounted last, and confining a process by its root
/// directory alone, ask no questions: no answer refuses them.
pub proof fn only_isolation_asks_a_question(rootfs: Seq<u8>, i: int, reply: Reply)
    ensures
        0 <= i < isolation_with_late_proc(rootfs).len() && answers(
            isolation_with_late_proc(rootfs)[i].request,
            reply,
        ) ==> reply is Done || reply is Failed,
        0 <= i < confinement(rootfs).len() && answers(confinement(rootfs)[i].request, reply)
            ==> reply is Done || reply is Failed,
{
}

/// The only thing that either way to isolate a process removes is the directory of the old
/// root, and it asks for that to be removed as an empty directory. If something is left in it,
/// so that this fails, nothing is removed, and the isolation ends with the error
/// `remove_dir(/.old)`.
pub proof fn old_root_is_removed_only_empty(rootfs: Seq<u8>, i: int)
    ensures
        0 <= i < isolation(rootfs).len() && isolation(rootfs)[i].request is RemoveDir
            ==> isolation(rootfs)[i] == explained_task(
            RequestView::RemoveDir(encode_utf8("/.old"@)),
            plain("remove_dir(/.old)"@),
        ),
        0 <= i < isolation_with_late_proc(rootfs).len() && isolation_with_late_proc(
            rootfs,
        )[i].request is RemoveDir ==> isolation_with_late_proc(rootfs)[i] == explained_task(
            RequestView::RemoveDir(encode_utf8("/.old"@)),
            plain("remove_dir(/.old)"@),
        ),
{
}

/// A fresh `proc` filesystem is mounted inside the root filesystem before that becomes the
/// root, wherever it is, and on the directory that was made for it.
pub proof fn proc_is_mounted_inside_the_rootfs(rootfs: Seq<u8>)
    ensures
        isolation(rootfs).len() == 11,
        isolation(rootfs)[4].request == RequestView::CreateDirAll(
            joined(rootfs, encode_utf8("proc"@)),
        ),
        isolation(rootfs)[5].request == (RequestView::Mount {
            source: Some(encode_utf8("proc"@)),
            target: joined(rootfs, encode_utf8("proc"@)),
            kind: Some("proc"@),
            mode: MountMode::Restricted,
        }),
        isolation(rootfs)[7].request is PivotRoot,
        ({
            let target = joined(rootfs, encode_utf8("proc"@));
            &&& target.take(rootfs.len() as int) == rootfs
            &&& target.len() == rootfs.len() + 4 + if rootfs.len() > 0 && rootfs.last() != 47 {
                1int
            } else {
                0
            }
            &&& target.skip(target.len() - 4) == seq![112u8, 114, 111, 99]
        }),
{
    reveal_strlit("proc");
    is_ascii_chars_encode_utf8("proc"@);
    let name = encode_utf8("proc"@);
    assert(name =~= seq![112u8, 114, 111, 99]);
    names_are_found_below_their_directory(rootfs, name);
    let target = joined(rootfs, name);
    assert(target.skip(target.len() - 4) =~= name);
}

/// Everything that isolating a filesystem does before the root is changed is done to the root
/// filesystem itself, and to directories inside it. The directory that takes the root before is
/// found afterwards at the same place of the new root, where it is let go and removed.
pub proof fn isolation_keeps_to_the_rootfs(rootfs: Seq<u8>)
    ensures
        ({
            let tasks = isolation(rootfs);
            let old_root = joined(rootfs, encode_utf8(".old"@));
            &&& tasks.len() == 11
            &&& tasks[0].request == RequestView::IsDirectory(rootfs)
            &&& tasks[1].request == RequestView::Unshare(Namespaces::Mount)
            &&& tasks[2].request == (RequestView::Mount {
                source: None,
                target: encode_utf8("/"@),
                kind: None,
                mode: MountMode::MakePrivate,
            })
            &&& tasks[3].request == (RequestView::Mount {
                source: Some(rootfs),
                target: rootfs,
                kind: None,
                mode: MountMode::Bind,
            })
            &&& tasks[6].request == RequestView::CreateDirAll(old_root)
            &&& tasks[7].request == (RequestView::PivotRoot { new_root: rootfs, put_old: old_root })
            &&& tasks[8].request == RequestView::ChangeDir(encode_utf8("/"@))
            &&& tasks[9].request == RequestView::Detach(encode_utf8("/.old"@))
            &&& tasks[10].request == RequestView::RemoveDir(encode_utf8("/.old"@))
        }),
        ({
            let tasks = isolation_with_late_proc(rootfs);
            &&& tasks.len() == 10
            &&& forall|i: int|
                0 <= i < 3 ==> #[trigger] tasks[i] == isolation(rootfs)[i + 1]
            &&& forall|i: int|
                3 <= i < 8 ==> #[trigger] tasks[i] == isolation(rootfs)[i + 3]
            &&& tasks[8].request == RequestView::CreateDirAll(encode_utf8("/proc"@))
            &&& tasks[9].request == (RequestView::Mount {
                source: Some(encode_utf8("proc"@)),
                target: encode_utf8("/proc"@),
                kind: Some("proc"@),
                mode: MountMode::Restricted,
            })
        }),
        confinement(rootfs).len() == 2,
        confinement(rootfs)[0].request == RequestView::ChangeRoot(rootfs),
        confinement(rootfs)[1].request == RequestView::ChangeDir(encode_utf8("/"@)),
{
}

/// What is said of a failure names the paths that the failed task was about.
pub proof fn isolation_errors_name_their_paths(rootfs: Seq<u8>)
    ensures
        ({
            let tasks = isolation(rootfs);
            let proc_dir = joined(rootfs, encode_utf8("proc"@));
            let old_root = joined(rootfs, encode_utf8(".old"@));
            &&& tasks[0].contexts.len() == 0
            &&& tasks[1].contexts == seq![seq![PieceView::Text("unshare(CLONE_NEWNS)"@)]]
            &&& tasks[2].contexts == seq![seq![PieceView::Text("mount / MS_REC|MS_PRIVATE"@)]]
            &&& tasks[3].contexts == seq![
                seq![
                    PieceView::Text("bind mount "@),
                    PieceView::QuotedPath(rootfs),
                    PieceView::Text(" onto itself"@),
                ],
            ]
            &&& tasks[4].contexts == seq![
                seq![PieceView::Text("create "@), PieceView::PlainPath(proc_dir)],
            ]
            &&& tasks[5].contexts == seq![
                seq![PieceView::Text("mount proc on "@), PieceView::QuotedPath(proc_dir)],
            ]
            &&& tasks[6].contexts == seq![
                seq![PieceView::Text("create_dir_all "@), PieceView::QuotedPath(old_root)],
            ]
            &&& tasks[7].contexts == seq![
                seq![
                    PieceView::Text("pivot_root("@),
                    PieceView::QuotedPath(rootfs),
                    PieceView::Text(", "@),
                    PieceView::QuotedPath(old_root),
                    PieceView::Text(")"@),
                ],
            ]
            &&& tasks[8].contexts == seq![
                seq![PieceView::Text("chdir(\"/\") after pivot_root"@)],
            ]
            &&& tasks[9].contexts == seq![seq![PieceView::Text("umount2(/.old)"@)]]
            &&& tasks[10].contexts == seq![seq![PieceView::Text("remove_dir(/.old)"@)]]
        }),
        isolation_with_late_proc(rootfs)[8].contexts == seq![
            seq![PieceView::Text("create /proc"@)],
        ],
        isolation_with_late_proc(rootfs)[9].contexts == seq![
            seq![PieceView::Text("mount /proc"@)],
        ],
        confinement(rootfs)[0].contexts == seq![
            seq![PieceView::Text("chroot "@), PieceView::QuotedPath(rootfs)],
        ],
        confinement(rootfs)[1].contexts == seq![
            seq![PieceView::Text("chdir(\"/\") after chroot"@)],
        ],
        rootfs_failure(rootfs).contexts.len() == 0,
        rootfs_failure(rootfs).cause == Some(
            seq![
                PieceView::Text("rootfs "@),
                PieceView::QuotedPath(rootfs),
                PieceView::Text(" does not exist or is not a directory"@),
            ],
        ),
{
}

} // verus!
