use container_runtime::binary64::Binary64;
use container_runtime::cgroup::CgroupSettings;
use container_runtime::creation::{Creation, Refusal};
use container_runtime::message::{Message, Piece};
use container_runtime::path::FsPath;
use container_runtime::request::{
    is_answered_by, Channel, Failure, MountMode, Namespaces, Reply, Request,
};
use container_runtime::run_args::{ArgsError, RunArgs};
use container_runtime::runtime::{run, End, Fault, Naming, Phase, Process, Runtime, Turn};
use container_runtime::wait::WaitStatus;

const GROUP: &str = "/sys/fs/cgroup/rust_container_2a";

fn arguments(args: &[&str]) -> RunArgs {
    RunArgs {
        rootfs: FsPath::from_text("/srv"),
        cpus: Binary64 {
            bits: 0.5f64.to_bits(),
        },
        mem: 4096,
        pids: 64,
        uid: 1000,
        gid: 1001,
        cmd: String::from("/bin/sh"),
        args: args.iter().map(|text| text.to_string()).collect(),
    }
}

fn at(phase: Phase) -> Runtime {
    Runtime {
        args: arguments(&["-c", "true"]),
        settings: CgroupSettings::new(50_000, 4096, 64),
        naming: Naming::ByRole,
        phase,
    }
}

fn path(text: &str) -> FsPath {
    FsPath::from_text(text)
}

fn write(file: &str, text: &str) -> Request {
    Request::Write(path(file), text.to_string())
}

fn shown(message: &Message) -> String {
    let mut text = String::new();
    for piece in &message.pieces {
        match piece {
            Piece::Text(part) => text.push_str(part),
            Piece::QuotedText(part) => text.push_str(&format!("{part:?}")),
            Piece::PlainPath(path) => text.push_str(&String::from_utf8_lossy(&path.bytes)),
            Piece::QuotedPath(path) => {
                text.push_str(&format!("{:?}", String::from_utf8_lossy(&path.bytes)))
            }
            Piece::Number(number) => text.push_str(&f64::from_bits(number.bits).to_string()),
            Piece::Status(status) => text.push_str(&format!("{status:?}")),
        }
    }
    text
}

/// The error as one line, with `?` for the error of the system.
fn line(failure: &Failure) -> String {
    let mut parts: Vec<String> = failure.contexts.iter().rev().map(shown).collect();
    parts.push(failure.cause.as_ref().map(shown).unwrap_or("?".to_string()));
    parts.join(": ")
}

fn asked(runtime: &Runtime) -> Request {
    match runtime.turn() {
        Turn::Perform(request) => request,
        other => panic!("{other:?} asks nothing"),
    }
}

/// Goes on with one reply after the other, and lists what was asked for.
fn follow(runtime: &mut Runtime, replies: Vec<Reply>) -> Vec<Request> {
    let mut requests = Vec::new();
    for reply in replies {
        let request = asked(runtime);
        assert!(is_answered_by(&request, &reply), "{request:?} {reply:?}");
        assert!(runtime.is_answered_by(&reply));
        requests.push(request);
        runtime.advance(&reply, true, 0x2a);
    }
    requests
}

fn done(count: usize) -> Vec<Reply> {
    (0..count).map(|_| Reply::Done).collect()
}

fn granted() -> Vec<Reply> {
    let mut replies = vec![Reply::Answer(true)];
    replies.extend(done(12));
    replies
}

#[test]
fn the_runtime_sees_a_container_through() {
    let mut runtime = run(arguments(&["-c", "true"]), true).unwrap();
    assert_eq!(
        runtime.settings,
        CgroupSettings {
            cpu_quota_us: 50_000,
            memory_max: 4096,
            pids_max: 64
        }
    );
    let requests = follow(
        &mut runtime,
        vec![
            Reply::Answer(true),
            Reply::Text("cpu memory pids".to_string()),
            Reply::Done,
            Reply::Text("cpu memory pids".to_string()),
        ],
    );
    assert_eq!(requests[2], Request::CreateDir(path(GROUP)));
    let requests = follow(&mut runtime, done(6));
    assert_eq!(
        requests,
        [
            write(&format!("{GROUP}/cpu.max"), "50000 100000"),
            write(&format!("{GROUP}/memory.max"), "4096"),
            write(&format!("{GROUP}/pids.max"), "64"),
            Request::OpenPipe(Channel::Cgroup),
            Request::OpenPipe(Channel::UserNamespace),
            Request::OpenPipe(Channel::Mapping),
        ]
    );
    let requests = follow(&mut runtime, vec![Reply::Parent { child: 77 }]);
    assert_eq!(requests, [Request::Fork]);
    let requests = follow(&mut runtime, done(8));
    assert_eq!(
        requests,
        [
            Request::KeepParentEnds,
            write(&format!("{GROUP}/cgroup.procs"), "77"),
            Request::Send(Channel::Cgroup),
            Request::Receive(Channel::UserNamespace),
            write("/proc/77/uid_map", "0 1000 1\n"),
            write("/proc/77/setgroups", "deny\n"),
            write("/proc/77/gid_map", "0 1001 1\n"),
            Request::Send(Channel::Mapping),
        ]
    );
    let requests = follow(
        &mut runtime,
        vec![
            Reply::Waited(WaitStatus::Exited { pid: 77, code: 3 }),
            Reply::Done,
        ],
    );
    assert_eq!(
        requests,
        [Request::Wait(77), Request::RemoveDir(path(GROUP))]
    );
    assert_eq!(runtime.turn(), Turn::Return(3));
}

#[test]
fn the_setup_process_passes_the_exit_code_on() {
    let mut runtime = at(Phase::ForkingSetup { id: 0x2a });
    follow(&mut runtime, vec![Reply::Child]);
    let requests = follow(&mut runtime, done(6));
    assert_eq!(
        requests,
        [
            Request::KeepChildEnds,
            Request::Receive(Channel::Cgroup),
            Request::Unshare(Namespaces::User),
            Request::Send(Channel::UserNamespace),
            Request::Receive(Channel::Mapping),
            Request::Unshare(Namespaces::PidAndNetwork),
        ]
    );
    let requests = follow(
        &mut runtime,
        vec![
            Reply::Parent { child: 1 },
            Reply::Waited(WaitStatus::Signaled {
                pid: 1,
                signal: 9,
                core_dumped: false,
            }),
        ],
    );
    assert_eq!(requests, [Request::Fork, Request::Wait(1)]);
    assert_eq!(runtime.turn(), Turn::Exit(137));
}

#[test]
fn the_first_process_becomes_the_command() {
    let mut runtime = at(Phase::ForkingInit);
    follow(&mut runtime, vec![Reply::Child]);
    let requests = follow(&mut runtime, granted());
    assert_eq!(requests[0], Request::IsDirectory(path("/srv")));
    assert_eq!(
        requests[3],
        Request::Mount {
            source: Some(path("/srv")),
            target: path("/srv"),
            kind: None,
            mode: MountMode::Bind
        }
    );
    assert_eq!(requests[11..], [Request::SetGid(0), Request::SetUid(0)]);
    assert_eq!(
        asked(&runtime),
        Request::Execute {
            program: "/bin/sh".to_string(),
            argv: vec![
                "/bin/sh".to_string(),
                "-c".to_string(),
                "true".to_string()
            ],
        }
    );
    follow(&mut runtime, vec![Reply::Failed]);
    match runtime.turn() {
        Turn::Abort {
            banner,
            failure,
            code,
        } => {
            assert_eq!(banner, "container-runtime: container init failed: ");
            assert_eq!(line(&failure), "exec \"/bin/sh\": ?");
            assert_eq!(code, 127);
        }
        other => panic!("{other:?} does not abort"),
    }
}

#[test]
fn arguments_are_judged_before_anything_is_done() {
    assert_eq!(
        Runtime::new(arguments(&[]), false).unwrap_err().message(),
        container_runtime::filesystem::RootfsError {
            rootfs: path("/srv")
        }
        .message()
    );
    let mut args = arguments(&[]);
    args.cpus = Binary64 {
        bits: f64::NAN.to_bits(),
    };
    assert!(matches!(
        run(args, true),
        Err(ArgsError::NotPositive { .. })
    ));
    let runtime = Runtime::new(arguments(&[]), true).unwrap();
    assert_eq!(
        runtime.phase,
        Phase::Creating {
            creation: Creation::FindMarker
        }
    );
}

#[test]
fn a_run_tells_too_few_cpus_from_too_many() {
    let refused = |cpus: f64| {
        let mut args = arguments(&[]);
        args.cpus = Binary64 {
            bits: cpus.to_bits(),
        };
        shown(&run(args, true).unwrap_err().message())
    };
    assert_eq!(refused(0.0), "--cpus must be positive but got 0");
    assert_eq!(refused(-0.0), "--cpus must be positive but got -0");
    assert_eq!(refused(-1.5), "--cpus must be positive but got -1.5");
    assert_eq!(
        refused(f64::NEG_INFINITY),
        "--cpus must be positive but got -inf"
    );
    assert_eq!(
        refused(f64::NAN),
        "--cpus must be finite and positive but got NaN"
    );
    assert_eq!(
        refused(f64::INFINITY),
        format!(
            "--cpus must be less than or equal to `max_cpus`. you have only {} cpus available",
            num_cpus::get()
        )
    );
    assert_eq!(
        refused(1e-9),
        "--cpus is too small for a nonzero CPU quota"
    );
    let mut args = arguments(&[]);
    args.cpus = Binary64 { bits: 0 };
    assert_eq!(
        shown(&run(args, false).unwrap_err().message()),
        "rootfs \"/srv\" does not exist or is not a directory"
    );
}

#[test]
fn a_run_names_its_processes_by_their_steps() {
    let runtime = run(arguments(&[]), true).unwrap();
    assert_eq!(runtime.naming, Naming::ByStep);
    assert_eq!(
        Runtime::new(arguments(&[]), true).unwrap().naming,
        Naming::ByRole
    );
    let stopped = WaitStatus::Stopped { pid: 5, signal: 19 };
    let cases = [
        (
            Naming::ByStep,
            Phase::WaitingForInit { child: 5 },
            "container-runtime: setup_child failed: ",
            "unexpected wait status for init: ",
        ),
        (
            Naming::ByRole,
            Phase::WaitingForInit { child: 5 },
            "container-runtime: setup process failed: ",
            "unexpected wait status: ",
        ),
    ];
    for (naming, phase, wanted, words) in cases {
        let mut runtime = at(phase);
        runtime.naming = naming;
        follow(&mut runtime, vec![Reply::Waited(stopped)]);
        assert_eq!(runtime.naming, naming);
        match runtime.turn() {
            Turn::Abort {
                banner, failure, ..
            } => {
                assert_eq!(banner, wanted);
                assert_eq!(
                    failure.cause.unwrap().pieces,
                    [Piece::Text(words.to_string()), Piece::Status(stopped)]
                );
            }
            other => panic!("{other:?} does not abort"),
        }
    }
    let mut runtime = at(Phase::Executing);
    runtime.naming = Naming::ByStep;
    follow(&mut runtime, vec![Reply::Failed]);
    assert!(matches!(
        runtime.turn(),
        Turn::Abort {
            banner: "container-runtime: child_main failed: ",
            ..
        }
    ));
    let mut runtime = at(Phase::WaitingForSetup { id: 1, child: 5 });
    runtime.naming = Naming::ByStep;
    follow(&mut runtime, vec![Reply::Waited(stopped), Reply::Done]);
    match runtime.turn() {
        Turn::Fail(failure) => assert_eq!(
            failure.cause.unwrap().pieces[0],
            Piece::Text("unexpected wait status: ".to_string())
        ),
        other => panic!("{other:?} does not fail"),
    }
}

#[test]
fn a_container_without_a_group_leaves_nothing_to_remove() {
    let mut runtime = Runtime::new(arguments(&[]), true).unwrap();
    follow(&mut runtime, vec![Reply::Answer(false)]);
    assert_eq!(
        runtime.phase,
        Phase::Over {
            process: Process::Runtime,
            end: End::Fault(Fault::Creation(Refusal::NotVersion2))
        }
    );
    match runtime.turn() {
        Turn::Fail(failure) => assert_eq!(line(&failure), "cgroupfs is not v2 (or not mounted)"),
        other => panic!("{other:?} does not fail"),
    }
}

#[test]
fn each_failed_preparation_removes_the_group() {
    let texts = [
        "write cpu.max: ?",
        "write memory.max: ?",
        "write pids.max: ?",
        "create cgroup pipe: ?",
        "create user namespace pipe: ?",
        "create mapping pipe: ?",
    ];
    for (at_task, text) in texts.iter().enumerate() {
        let mut runtime = at(Phase::Preparing { id: 0x2a, at: 0 });
        let mut replies = done(at_task);
        replies.push(Reply::Failed);
        follow(&mut runtime, replies);
        assert_eq!(asked(&runtime), Request::RemoveDir(path(GROUP)));
        follow(&mut runtime, vec![Reply::Failed]);
        match runtime.turn() {
            Turn::Fail(failure) => assert_eq!(line(&failure), *text),
            other => panic!("{other:?} does not fail"),
        }
    }
}

#[test]
fn each_failed_setup_in_the_runtime_ends_the_child() {
    let texts = [
        "container setup failed; child killed: ?",
        "container setup failed; child killed: add setup child to cgroup: write cgroup.procs: ?",
        "container setup failed; child killed: ?",
        "container setup failed; child killed: ?",
        "container setup failed; child killed: map container UID/GID: write /proc/5/uid_map: ?",
        "container setup failed; child killed: map container UID/GID: write /proc/5/setgroups: ?",
        "container setup failed; child killed: map container UID/GID: write /proc/5/gid_map: ?",
        "container setup failed; child killed: ?",
    ];
    for (at_task, text) in texts.iter().enumerate() {
        let mut runtime = at(Phase::Parent {
            id: 0x2a,
            child: 5,
            at: 0,
        });
        let mut replies = done(at_task);
        replies.push(Reply::Failed);
        follow(&mut runtime, replies);
        let requests = follow(&mut runtime, vec![Reply::Failed, Reply::Failed, Reply::Failed]);
        assert_eq!(
            requests,
            [
                Request::Kill(5),
                Request::Wait(5),
                Request::RemoveDir(path(GROUP))
            ]
        );
        match runtime.turn() {
            Turn::Fail(failure) => assert_eq!(line(&failure), *text),
            other => panic!("{other:?} does not fail"),
        }
    }
}

#[test]
fn forks_and_waits_that_fail_are_explained() {
    let cases = [
        (Phase::ForkingSetup { id: 0x2a }, 2, "fork failed: ?"),
        (
            Phase::WaitingForSetup {
                id: 0x2a,
                child: 5,
            },
            2,
            "waitpid failed: ?",
        ),
        (Phase::ForkingInit, 1, "fork (setup) failed: ?"),
        (
            Phase::WaitingForInit { child: 5 },
            1,
            "waitpid(child) failed: ?",
        ),
    ];
    for (phase, count, text) in cases {
        let mut runtime = at(phase);
        follow(&mut runtime, (0..count).map(|_| Reply::Failed).collect());
        let failure = match runtime.turn() {
            Turn::Fail(failure) => failure,
            Turn::Abort {
                banner,
                failure,
                code,
            } => {
                assert_eq!(banner, "container-runtime: setup process failed: ");
                assert_eq!(code, 127);
                failure
            }
            other => panic!("{other:?} does not fail"),
        };
        assert_eq!(line(&failure), text);
    }
}

#[test]
fn unexpected_statuses_are_reported() {
    let stopped = WaitStatus::Stopped { pid: 5, signal: 19 };
    let mut runtime = at(Phase::WaitingForSetup {
        id: 0x2a,
        child: 5,
    });
    follow(&mut runtime, vec![Reply::Waited(stopped), Reply::Done]);
    match runtime.turn() {
        Turn::Fail(failure) => {
            assert_eq!(
                failure.cause.unwrap().pieces,
                [
                    Piece::Text("unexpected wait status: ".to_string()),
                    Piece::Status(stopped)
                ]
            );
            assert!(failure.contexts.is_empty());
        }
        other => panic!("{other:?} does not fail"),
    }
    let mut runtime = at(Phase::WaitingForInit { child: 5 });
    follow(&mut runtime, vec![Reply::Waited(WaitStatus::StillAlive)]);
    assert!(matches!(runtime.turn(), Turn::Abort { code: 127, .. }));
}

#[test]
fn each_failed_task_of_the_setup_process_aborts_it() {
    let texts = [
        "?",
        "?",
        "unshare(CLONE_NEWUSER): ?",
        "?",
        "?",
        "unshare(CLONE_NEWPID | CLONE_NEWNET): ?",
    ];
    for (at_task, text) in texts.iter().enumerate() {
        let mut runtime = at(Phase::Setup { at: 0 });
        let mut replies = done(at_task);
        replies.push(Reply::Failed);
        follow(&mut runtime, replies);
        match runtime.turn() {
            Turn::Abort {
                banner,
                failure,
                code,
            } => {
                assert_eq!(banner, "container-runtime: setup process failed: ");
                assert_eq!(line(&failure), *text);
                assert_eq!(code, 127);
            }
            other => panic!("{other:?} does not abort"),
        }
    }
}

#[test]
fn each_failed_task_of_the_first_process_aborts_it() {
    for at_task in 1..13 {
        let mut runtime = at(Phase::Init { at: 0 });
        let mut replies = vec![Reply::Answer(true)];
        replies.extend(done(at_task - 1));
        replies.push(Reply::Failed);
        follow(&mut runtime, replies);
        assert_eq!(
            runtime.phase,
            Phase::Over {
                process: Process::Init,
                end: End::Fault(Fault::Init { at: at_task })
            }
        );
        assert!(matches!(runtime.turn(), Turn::Abort { code: 127, .. }));
    }
    let mut runtime = at(Phase::Init { at: 0 });
    follow(&mut runtime, vec![Reply::Answer(false)]);
    match runtime.turn() {
        Turn::Abort { failure, .. } => assert_eq!(
            line(&failure),
            "rootfs \"/srv\" does not exist or is not a directory"
        ),
        other => panic!("{other:?} does not abort"),
    }
}

#[test]
fn a_zero_byte_keeps_the_command_from_starting() {
    let mut runtime = Runtime {
        args: arguments(&["a", "b\0"]),
        settings: CgroupSettings::new(1, 1, 1),
        naming: Naming::ByRole,
        phase: Phase::Init { at: 0 },
    };
    follow(&mut runtime, granted());
    match runtime.turn() {
        Turn::Abort { failure, .. } => assert_eq!(
            line(&failure),
            "arg contains a nul byte: nul byte found in provided data at position: 1"
        ),
        other => panic!("{other:?} does not abort"),
    }
}

#[test]
fn replies_that_fit_no_request_are_recognised() {
    let runtime = at(Phase::ForkingSetup { id: 1 });
    assert!(runtime.is_answered_by(&Reply::Child));
    assert!(!runtime.is_answered_by(&Reply::Done));
    let runtime = at(Phase::WaitingForInit { child: 1 });
    assert!(!runtime.is_answered_by(&Reply::Waited(WaitStatus::Signaled {
        pid: 1,
        signal: 200,
        core_dumped: false
    })));
    let runtime = at(Phase::Over {
        process: Process::Setup,
        end: End::Code(0),
    });
    assert!(!runtime.is_answered_by(&Reply::Done));
    assert_eq!(runtime.turn(), Turn::Exit(0));
    let runtime = at(Phase::Init { at: 0 });
    assert!(!runtime.is_answered_by(&Reply::Failed));
    let runtime = at(Phase::Executing);
    assert!(!runtime.is_answered_by(&Reply::Done));
}

#[test]
fn a_run_names_its_group_afresh() {
    let mut ids = Vec::new();
    for _ in 0..8 {
        let mut runtime = at(Phase::Creating {
            creation: Creation::ReadActive,
        });
        runtime.run(&Reply::Text("cpu memory pids".to_string()));
        match runtime.phase {
            Phase::Creating {
                creation: Creation::CreateDirectory { id },
            } => ids.push(id),
            other => panic!("{other:?} makes no directory"),
        }
    }
    ids.sort();
    ids.dedup();
    assert_eq!(ids.len(), 8);
    let mut runtime = at(Phase::Removing {
        id: 1,
        end: End::Code(9),
    });
    runtime.run(&Reply::Done);
    assert_eq!(runtime.turn(), Turn::Return(9));
}

/// Both processes and the signals that were sent, in an order that a number decides.
fn interleave(mut order: u64) -> Vec<(bool, Request)> {
    let mut runtime = at(Phase::Parent {
        id: 0x2a,
        child: 5,
        at: 0,
    });
    let mut setup = at(Phase::Setup { at: 0 });
    let mut sent: Vec<Channel> = Vec::new();
    let mut log = Vec::new();
    loop {
        let waiting = matches!(runtime.phase, Phase::WaitingForSetup { .. });
        let over = matches!(setup.phase, Phase::ForkingInit);
        if waiting && over {
            return log;
        }
        let can_go_on = |side: &Runtime| match asked(side) {
            Request::Receive(channel) => sent.contains(&channel),
            _ => true,
        };
        let first = !waiting && can_go_on(&runtime);
        let second = !over && can_go_on(&setup);
        assert!(first || second, "both processes wait");
        let to_runtime = first && (!second || order % 2 == 0);
        order = order / 2 + (order % 2) * (1 << 40);
        let side = if to_runtime { &mut runtime } else { &mut setup };
        let request = asked(side);
        side.advance(&Reply::Done, false, 0);
        if let Request::Send(channel) = request {
            sent.push(channel);
        }
        log.push((to_runtime, request));
    }
}

#[test]
fn both_processes_keep_in_step_in_any_order() {
    for order in 0..4096 {
        let log = interleave(order);
        let place = |wanted: &Request| log.iter().position(|(_, found)| found == wanted).unwrap();
        let joined = place(&write(&format!("{GROUP}/cgroup.procs"), "5"));
        let user = place(&Request::Unshare(Namespaces::User));
        let uid = place(&write("/proc/5/uid_map", "0 1000 1\n"));
        let gid = place(&write("/proc/5/gid_map", "0 1001 1\n"));
        let others = place(&Request::Unshare(Namespaces::PidAndNetwork));
        assert!(joined < user && user < uid && uid < gid && gid < others);
        assert_eq!(log.len(), 14);
    }
}

struct Dice(u64);

impl Dice {
    fn roll(&mut self, sides: u64) -> u64 {
        self.0 ^= self.0 << 13;
        self.0 ^= self.0 >> 7;
        self.0 ^= self.0 << 17;
        self.0 % sides
    }

    fn reply(&mut self, request: &Request) -> Reply {
        let lucky = self.roll(20) != 0;
        match request {
            Request::IsFile(_) | Request::IsDirectory(_) => Reply::Answer(lucky),
            Request::Read(_) if lucky => Reply::Text("cpu memory".to_string() + match self.roll(3) {
                0 => "",
                _ => " pids",
            }),
            Request::Fork if lucky => match self.roll(2) {
                0 => Reply::Parent { child: 5 },
                _ => Reply::Child,
            },
            Request::Wait(pid) if lucky => Reply::Waited(match self.roll(3) {
                0 => WaitStatus::Exited { pid: *pid, code: 7 },
                1 => WaitStatus::Signaled {
                    pid: *pid,
                    signal: 15,
                    core_dumped: false,
                },
                _ => WaitStatus::Continued { pid: *pid },
            }),
            Request::Execute { .. } => Reply::Failed,
            _ if lucky => Reply::Done,
            _ => Reply::Failed,
        }
    }
}

#[test]
fn every_course_comes_to_its_end() {
    let mut dice = Dice(0x2545_f491_4f6c_dd1d);
    let mut ends = [0; 4];
    for _ in 0..5000 {
        let mut runtime = Runtime::new(arguments(&[]), true).unwrap();
        let mut group = None;
        let mut child = false;
        let mut last = None;
        let mut learnt = None;
        let mut count = 0;
        let turn = loop {
            let request = match runtime.turn() {
                Turn::Perform(request) => request,
                end => break end,
            };
            let reply = dice.reply(&request);
            assert!(runtime.is_answered_by(&reply));
            child = child || reply == Reply::Child;
            learnt = match reply {
                Reply::Waited(WaitStatus::Exited { .. }) => Some(7),
                Reply::Waited(WaitStatus::Signaled { .. }) => Some(143),
                _ => learnt,
            };
            runtime.advance(&reply, true, 0x2a);
            if let Phase::Preparing { id, .. } = runtime.phase {
                group = Some(id);
            }
            last = Some(request);
            count += 1;
        };
        assert!(count <= 50);
        match turn {
            Turn::Return(code) => {
                assert!(!child);
                assert_eq!(learnt, Some(code));
                assert_eq!(last, Some(Request::RemoveDir(path(GROUP))));
                ends[0] += 1;
            }
            Turn::Fail(_) => {
                assert!(!child);
                assert_eq!(
                    last == Some(Request::RemoveDir(path(GROUP))),
                    group.is_some()
                );
                ends[1] += 1;
            }
            Turn::Exit(code) => {
                assert!(child);
                assert_eq!(learnt, Some(code));
                ends[2] += 1;
            }
            Turn::Abort { code, .. } => {
                assert!(child);
                assert_eq!(code, 127);
                ends[3] += 1;
            }
            Turn::Perform(_) => unreachable!(),
        }
    }
    assert!(ends.iter().all(|count| *count > 0));
}
