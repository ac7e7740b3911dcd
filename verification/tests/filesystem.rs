use container_runtime::filesystem::{isolate_fs_chroot, isolate_fs_pivot, PivotRoot};
use container_runtime::message::{Message, Piece};
use container_runtime::path::FsPath;
use container_runtime::procedure::{Procedure, Step};
use container_runtime::request::{MountMode, Namespaces, Reply, Request, Task};
use std::path::Path;

fn shown(message: &Message) -> String {
    let mut text = String::new();
    for piece in &message.pieces {
        match piece {
            Piece::Text(part) => text.push_str(part),
            Piece::PlainPath(path) => text.push_str(&String::from_utf8_lossy(&path.bytes)),
            Piece::QuotedPath(path) => {
                text.push_str(&format!("{:?}", String::from_utf8_lossy(&path.bytes)))
            }
            other => panic!("{other:?} is not expected"),
        }
    }
    text
}

fn path(text: &str) -> FsPath {
    FsPath::from_text(text)
}

fn contexts(tasks: &[Task]) -> Vec<Vec<String>> {
    tasks
        .iter()
        .map(|task| task.contexts.iter().map(shown).collect())
        .collect()
}

fn proc_mount(target: &str) -> Request {
    Request::Mount {
        source: Some(path("proc")),
        target: path(target),
        kind: Some("proc".to_string()),
        mode: MountMode::Restricted,
    }
}

#[test]
fn rejects_missing_rootfs_before_mount_operations() {
    let name = format!("/tmp/missing-rootfs-{:x}", rand::random::<u64>());
    assert!(!Path::new(&name).exists());
    let root = PivotRoot::new(path(&name));

    let error = root
        .validate_rootfs(Path::new(&name).is_dir())
        .unwrap_err();
    assert!(shown(&error.message()).contains("does not exist or is not a directory"));
    assert_eq!(
        root.isolate_filesystem()[0].request,
        Request::IsDirectory(path(&name))
    );
}

#[test]
fn rejects_regular_file_as_rootfs() {
    let name = "/proc/self/status";
    assert!(Path::new(name).is_file());
    let root = PivotRoot::new(path(name));
    assert_eq!(
        root.isolate_filesystem()[0].request,
        Request::IsDirectory(path(name))
    );
    let error = root
        .validate_rootfs(Path::new(name).is_dir())
        .unwrap_err();
    assert!(shown(&error.message()).contains("does not exist or is not a directory"));
}

#[test]
fn accepts_an_existing_directory_as_rootfs() {
    let name = "/tmp";
    assert!(PivotRoot::new(path(name))
        .validate_rootfs(Path::new(name).is_dir())
        .is_ok());
}

#[test]
fn a_filesystem_is_isolated_step_by_step() {
    let tasks = PivotRoot::new(path("/srv/rootfs")).isolate_filesystem();
    let found: Vec<&Request> = tasks.iter().map(|task| &task.request).collect();
    let wanted = [
        Request::IsDirectory(path("/srv/rootfs")),
        Request::Unshare(Namespaces::Mount),
        Request::Mount {
            source: None,
            target: path("/"),
            kind: None,
            mode: MountMode::MakePrivate,
        },
        Request::Mount {
            source: Some(path("/srv/rootfs")),
            target: path("/srv/rootfs"),
            kind: None,
            mode: MountMode::Bind,
        },
        Request::CreateDirAll(path("/srv/rootfs/proc")),
        proc_mount("/srv/rootfs/proc"),
        Request::CreateDirAll(path("/srv/rootfs/.old")),
        Request::PivotRoot {
            new_root: path("/srv/rootfs"),
            put_old: path("/srv/rootfs/.old"),
        },
        Request::ChangeDir(path("/")),
        Request::Detach(path("/.old")),
        Request::RemoveDir(path("/.old")),
    ];
    assert_eq!(found, wanted.iter().collect::<Vec<_>>());
    let none: &[&str] = &[];
    let texts: [&[&str]; 11] = [
        none,
        &["unshare(CLONE_NEWNS)"],
        &["mount / MS_REC|MS_PRIVATE"],
        &["bind mount \"/srv/rootfs\" onto itself"],
        &["create /srv/rootfs/proc"],
        &["mount proc on \"/srv/rootfs/proc\""],
        &["create_dir_all \"/srv/rootfs/.old\""],
        &["pivot_root(\"/srv/rootfs\", \"/srv/rootfs/.old\")"],
        &["chdir(\"/\") after pivot_root"],
        &["umount2(/.old)"],
        &["remove_dir(/.old)"],
    ];
    assert_eq!(contexts(&tasks), texts);
}

#[test]
fn proc_may_be_mounted_after_the_old_root_is_gone() {
    let tasks = isolate_fs_pivot(&path("rootfs/"));
    let found: Vec<&Request> = tasks.iter().map(|task| &task.request).collect();
    let wanted = [
        Request::Unshare(Namespaces::Mount),
        Request::Mount {
            source: None,
            target: path("/"),
            kind: None,
            mode: MountMode::MakePrivate,
        },
        Request::Mount {
            source: Some(path("rootfs/")),
            target: path("rootfs/"),
            kind: None,
            mode: MountMode::Bind,
        },
        Request::CreateDirAll(path("rootfs/.old")),
        Request::PivotRoot {
            new_root: path("rootfs/"),
            put_old: path("rootfs/.old"),
        },
        Request::ChangeDir(path("/")),
        Request::Detach(path("/.old")),
        Request::RemoveDir(path("/.old")),
        Request::CreateDirAll(path("/proc")),
        proc_mount("/proc"),
    ];
    assert_eq!(found, wanted.iter().collect::<Vec<_>>());
    assert_eq!(
        contexts(&tasks)[8..],
        [["create /proc".to_string()], ["mount /proc".to_string()]]
    );
}

#[test]
fn a_process_may_be_confined_without_namespaces() {
    let tasks = isolate_fs_chroot(&path("/srv"));
    assert_eq!(tasks.len(), 2);
    assert_eq!(tasks[0].request, Request::ChangeRoot(path("/srv")));
    assert_eq!(tasks[1].request, Request::ChangeDir(path("/")));
    assert_eq!(
        contexts(&tasks),
        [["chroot \"/srv\""], ["chdir(\"/\") after chroot"]]
    );
}

#[test]
fn no_mount_comes_before_the_namespace_is_private() {
    for tasks in [
        PivotRoot::new(path("/r")).isolate_filesystem(),
        isolate_fs_pivot(&path("/r")),
    ] {
        let place = |wanted: &dyn Fn(&Request) -> bool| {
            tasks.iter().position(|task| wanted(&task.request)).unwrap()
        };
        let left = place(&|request| *request == Request::Unshare(Namespaces::Mount));
        let private = place(&|request| {
            matches!(
                request,
                Request::Mount {
                    mode: MountMode::MakePrivate,
                    ..
                }
            )
        });
        let mounted = place(&|request| {
            matches!(
                request,
                Request::Mount {
                    mode: MountMode::Bind | MountMode::Restricted,
                    ..
                }
            )
        });
        let swapped = place(&|request| matches!(request, Request::PivotRoot { .. }));
        let dropped = place(&|request| matches!(request, Request::Detach(_)));
        assert!(left < private && private < mounted && mounted < swapped && swapped < dropped);
    }
}

/// Does the tasks up to one that fails, and lists what was asked for.
fn fail_at(tasks: Vec<Task>, at: usize) -> (Vec<Request>, Vec<String>) {
    let texts = contexts(&tasks);
    let mut requests = Vec::new();
    let mut procedure = Procedure::new(tasks);
    loop {
        requests.push(match procedure.request() {
            Request::RemoveDir(directory) => Request::RemoveDir(directory.clone()),
            Request::ChangeDir(directory) => Request::ChangeDir(directory.clone()),
            _ => Request::Fork,
        });
        let reply = if procedure.at == at {
            Reply::Failed
        } else if matches!(procedure.request(), Request::IsDirectory(_)) {
            Reply::Answer(true)
        } else {
            Reply::Done
        };
        match procedure.step(&reply) {
            Step::Next(next) => procedure = next,
            Step::Finished => return (requests, Vec::new()),
            Step::Refused => panic!("nothing was refused"),
            Step::Stopped(failure) => {
                assert_eq!(failure.cause, None);
                let found: Vec<String> = failure.contexts.iter().map(shown).collect();
                assert_eq!(found, texts[at]);
                return (requests, found);
            }
        }
    }
}

#[test]
fn a_failed_task_stops_the_isolation() {
    let count = isolate_fs_pivot(&path("/srv")).len();
    for at in 0..count {
        let (requests, error) = fail_at(isolate_fs_pivot(&path("/srv")), at);
        assert_eq!(requests.len(), at + 1);
        assert_eq!(error.len(), 1);
    }
    let (requests, error) = fail_at(isolate_fs_pivot(&path("/srv")), count);
    assert_eq!(requests.len(), count);
    assert!(error.is_empty());
    let root = PivotRoot::new(path("/srv"));
    for at in 1..11 {
        let (requests, error) = fail_at(root.isolate_filesystem(), at);
        assert_eq!(requests.len(), at + 1);
        assert_eq!(error.len(), 1);
    }
    let (requests, error) = fail_at(root.isolate_filesystem(), 11);
    assert_eq!(requests.len(), 11);
    assert!(error.is_empty());
}

#[test]
fn a_rootfs_that_is_no_directory_stops_the_isolation() {
    let root = PivotRoot::new(path("/srv/file"));
    let procedure = Procedure::new(root.isolate_filesystem());
    assert_eq!(
        *procedure.request(),
        Request::IsDirectory(path("/srv/file"))
    );
    assert_eq!(procedure.step(&Reply::Answer(false)), Step::Refused);
    let failure = root.validate_rootfs(false).unwrap_err().failure();
    assert_eq!(
        failure.cause.as_ref().map(shown).unwrap(),
        "rootfs \"/srv/file\" does not exist or is not a directory"
    );
    assert!(failure.contexts.is_empty());
}

#[test]
fn an_old_root_that_is_not_empty_stops_the_isolation() {
    let (requests, error) = fail_at(isolate_fs_pivot(&path("/srv")), 7);
    assert_eq!(requests[7], Request::RemoveDir(path("/.old")));
    assert_eq!(error, ["remove_dir(/.old)"]);
    assert_eq!(
        requests
            .iter()
            .filter(|request| matches!(request, Request::RemoveDir(_)))
            .count(),
        1
    );
}

#[test]
fn a_failed_task_stops_the_confinement() {
    let (requests, error) = fail_at(isolate_fs_chroot(&path("/srv")), 0);
    assert_eq!(requests.len(), 1);
    assert_eq!(error, ["chroot \"/srv\""]);
    let (requests, error) = fail_at(isolate_fs_chroot(&path("/srv")), 1);
    assert_eq!(requests[1], Request::ChangeDir(path("/")));
    assert_eq!(error, ["chdir(\"/\") after chroot"]);
    let (_, error) = fail_at(isolate_fs_chroot(&path("/srv")), 2);
    assert!(error.is_empty());
}
