use container_runtime::cgroup::{Cgroup, Controller, Missing};
use container_runtime::creation::{Creation, Refusal};
use container_runtime::message::{Message, Piece};
use container_runtime::path::FsPath;
use container_runtime::request::{Reply, Request};

fn text_of(message: &Message) -> String {
    match message.pieces.as_slice() {
        [Piece::Text(text)] => text.clone(),
        other => panic!("{other:?} is not one text"),
    }
}

fn text(reply: &str) -> Reply {
    Reply::Text(reply.to_string())
}

#[test]
fn a_group_is_made_in_five_steps() {
    let creation = Cgroup::new();
    assert_eq!(
        creation.request(),
        Some(Request::IsFile(FsPath::from_text(
            "/sys/fs/cgroup/cgroup.controllers"
        )))
    );
    let creation = creation.advance(&Reply::Answer(true), true, 0);
    assert_eq!(
        creation.request(),
        Some(Request::Read(FsPath::from_text(
            "/sys/fs/cgroup/cgroup.subtree_control"
        )))
    );
    let creation = creation.advance(&text("cpu io\n"), true, 7);
    assert_eq!(
        creation.request(),
        Some(Request::Write(
            FsPath::from_text("/sys/fs/cgroup/cgroup.subtree_control"),
            "+memory +pids".to_string()
        ))
    );
    let creation = creation.advance(&Reply::Done, true, 0x1f);
    assert_eq!(
        creation.request(),
        Some(Request::CreateDir(FsPath::from_text(
            "/sys/fs/cgroup/rust_container_1f"
        )))
    );
    let creation = creation.advance(&Reply::Done, true, 9);
    assert_eq!(
        creation.request(),
        Some(Request::Read(FsPath::from_text(
            "/sys/fs/cgroup/rust_container_1f/cgroup.controllers"
        )))
    );
    let creation = creation.advance(&text("cpu memory pids\n"), true, 9);
    assert_eq!(creation, Creation::Created { id: 0x1f });
    assert_eq!(creation.request(), None);
}

#[test]
fn nothing_is_enabled_where_nothing_is_missing() {
    let creation = Creation::ReadActive.advance(&text("cpu memory pids"), true, 5);
    assert_eq!(creation, Creation::CreateDirectory { id: 5 });
}

#[test]
fn each_refusal_says_what_went_wrong() {
    let refused = |creation: Creation| match creation {
        Creation::Refused { refusal } => refusal,
        other => panic!("{other:?} is not refused"),
    };
    let missing = Missing {
        memory: true,
        cpu: false,
        pids: false,
    };
    let cases = [
        (
            refused(Creation::FindMarker.advance(&Reply::Answer(false), true, 0)),
            Refusal::NotVersion2,
            Some("cgroupfs is not v2 (or not mounted)"),
            None,
        ),
        (
            refused(Creation::FindMarker.advance(&Reply::Answer(true), false, 0)),
            Refusal::NotRoot,
            Some("cgroup operations require root privileges"),
            None,
        ),
        (
            refused(Creation::ReadActive.advance(&Reply::Failed, true, 0)),
            Refusal::ActiveUnreadable,
            None,
            None,
        ),
        (
            refused(Creation::EnableMissing { missing }.advance(&Reply::Failed, true, 0)),
            Refusal::NotEnabled,
            None,
            Some("failed to enable controllers"),
        ),
        (
            refused(Creation::CreateDirectory { id: 1 }.advance(&Reply::Failed, true, 0)),
            Refusal::NotCreated,
            None,
            Some("create cgroup dir"),
        ),
        (
            refused(Creation::ReadDelegated { id: 1 }.advance(&Reply::Failed, true, 0)),
            Refusal::DelegatedUnreadable,
            None,
            Some("read new cgroup.controllers"),
        ),
        (
            refused(Creation::ReadDelegated { id: 1 }.advance(&text("cpu memory"), true, 0)),
            Refusal::NotDelegated(Controller::Pids),
            Some(
                "controller pids not delegated to new cgroup (check parent's cgroup.subtree_control)",
            ),
            None,
        ),
    ];
    for (found, wanted, cause, context) in cases {
        assert_eq!(found, wanted);
        let failure = found.explain();
        assert_eq!(failure.cause.as_ref().map(text_of).as_deref(), cause);
        let contexts: Vec<String> = failure.contexts.iter().map(text_of).collect();
        assert_eq!(contexts.first().map(String::as_str), context);
        assert!(contexts.len() <= 1);
    }
}

#[test]
fn the_marker_alone_does_not_make_a_group_for_everyone() {
    let root = nix::unistd::geteuid().is_root();
    let next = Creation::FindMarker.resume(&Reply::Answer(true));
    if root {
        assert_eq!(next, Creation::ReadActive);
    } else {
        assert_eq!(
            next,
            Creation::Refused {
                refusal: Refusal::NotRoot
            }
        );
    }
}

#[test]
fn fresh_groups_have_fresh_names() {
    let mut ids = Vec::new();
    for _ in 0..16 {
        match Creation::ReadActive.resume(&text("memory cpu pids")) {
            Creation::CreateDirectory { id } => ids.push(id),
            other => panic!("{other:?} does not make a directory"),
        }
    }
    ids.sort();
    ids.dedup();
    assert_eq!(ids.len(), 16);
}

#[test]
fn groups_with_different_numbers_are_different_directories() {
    let numbers = [0, 1, 15, 16, 255, 256, u64::MAX - 1, u64::MAX];
    for a in numbers {
        assert_eq!(
            Cgroup::named(a).path,
            FsPath::from_text(&format!("/sys/fs/cgroup/rust_container_{a:x}"))
        );
        for b in numbers {
            assert_eq!(Cgroup::named(a) == Cgroup::named(b), a == b);
        }
    }
}

#[test]
fn a_directory_that_exists_is_never_adopted() {
    let mut directories = vec![Cgroup::named(7).path];
    let mut make = |id: u64| {
        let creation = Creation::CreateDirectory { id };
        let path = match creation.request() {
            Some(Request::CreateDir(path)) => path,
            other => panic!("{other:?} makes no directory"),
        };
        if directories.contains(&path) {
            creation.advance(&Reply::Failed, true, 0)
        } else {
            directories.push(path);
            creation.advance(&Reply::Done, true, 0)
        }
    };
    assert_eq!(make(8), Creation::ReadDelegated { id: 8 });
    for id in [7, 8] {
        assert_eq!(
            make(id),
            Creation::Refused {
                refusal: Refusal::NotCreated
            }
        );
    }
    assert_eq!(directories.len(), 2);
}
