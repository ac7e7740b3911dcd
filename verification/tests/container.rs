use container_runtime::container::{exec_cmd, NulError};
use container_runtime::mapping::Mapping;
use container_runtime::message::Piece;
use container_runtime::path::FsPath;
use container_runtime::request::Request;
use container_runtime::wait::{exit_status, WaitStatus};

fn strings(texts: &[&str]) -> Vec<String> {
    texts.iter().map(|text| text.to_string()).collect()
}

#[test]
fn the_program_is_its_own_first_argument() {
    let task = exec_cmd("/bin/sh", &strings(&["-c", "echo hello"])).unwrap();
    assert_eq!(
        task.request,
        Request::Execute {
            program: "/bin/sh".to_string(),
            argv: strings(&["/bin/sh", "-c", "echo hello"]),
        }
    );
    assert_eq!(task.contexts.len(), 1);
    assert_eq!(
        task.contexts[0].pieces,
        [
            Piece::Text("exec ".to_string()),
            Piece::QuotedText("/bin/sh".to_string())
        ]
    );
    let task = exec_cmd("", &Vec::new()).unwrap();
    assert_eq!(
        task.request,
        Request::Execute {
            program: String::new(),
            argv: strings(&[""]),
        }
    );
}

#[test]
fn the_first_zero_byte_is_named() {
    let error = exec_cmd("a\0b\0", &strings(&["\0"])).unwrap_err();
    assert_eq!(
        error,
        NulError {
            argument: None,
            position: 1
        }
    );
    assert_eq!(
        error.context().pieces,
        [Piece::Text("cmd contains a nul byte".to_string())]
    );
    assert_eq!(
        error.cause().pieces,
        [Piece::Text(
            "nul byte found in provided data at position: 1".to_string()
        )]
    );

    let error = exec_cmd("a", &strings(&["b", "\u{e9}\0", "\0"])).unwrap_err();
    assert_eq!(
        error,
        NulError {
            argument: Some(1),
            position: 2
        }
    );
    assert_eq!(
        error.context().pieces,
        [Piece::Text("arg contains a nul byte".to_string())]
    );
}

#[test]
fn zero_bytes_are_counted_in_bytes() {
    for text in ["\0", "ab\0c", "\u{20ac}\u{20ac}\0", "\u{1f600}\0\0"] {
        let wanted = text.bytes().position(|byte| byte == 0).unwrap();
        assert_eq!(exec_cmd(text, &Vec::new()).unwrap_err().position, wanted);
    }
}

#[test]
fn root_is_mapped_in_three_writes() {
    let tasks = Mapping::new(4321, 1000, 1001).map();
    let wanted = [
        ("/proc/4321/uid_map", "0 1000 1\n"),
        ("/proc/4321/setgroups", "deny\n"),
        ("/proc/4321/gid_map", "0 1001 1\n"),
    ];
    assert_eq!(tasks.len(), wanted.len());
    for (task, (path, text)) in tasks.iter().zip(wanted) {
        assert_eq!(
            task.request,
            Request::Write(FsPath::from_text(path), text.to_string())
        );
        assert_eq!(task.contexts.len(), 1);
        assert_eq!(
            task.contexts[0].pieces,
            [Piece::Text(format!("write {path}"))]
        );
    }
}

#[test]
fn exit_codes_are_passed_on() {
    let exited = |code| exit_status(WaitStatus::Exited { pid: 1, code });
    assert_eq!(exited(0), Ok(0));
    assert_eq!(exited(42), Ok(42));
    assert_eq!(exited(255), Ok(255));
    assert_eq!(exited(256), Ok(0));
    assert_eq!(exited(-1), Ok(255));
    for code in -1000..1000 {
        assert_eq!(exited(code), Ok(code as u8));
    }
}

#[test]
fn signals_are_added_to_128() {
    for signal in [1, 2, 9, 15, 64, 127] {
        let status = WaitStatus::Signaled {
            pid: 1,
            signal,
            core_dumped: signal == 2,
        };
        assert!(status.is_valid());
        assert_eq!(exit_status(status), Ok(128 + signal as u8));
    }
    for signal in [-1, 128, i32::MAX] {
        assert!(!WaitStatus::Signaled {
            pid: 1,
            signal,
            core_dumped: false
        }
        .is_valid());
    }
}

#[test]
fn other_statuses_are_unexpected() {
    let statuses = [
        WaitStatus::Stopped { pid: 1, signal: 19 },
        WaitStatus::PtraceEvent {
            pid: 1,
            signal: 5,
            event: 1,
        },
        WaitStatus::PtraceSyscall { pid: 1 },
        WaitStatus::Continued { pid: 1 },
        WaitStatus::StillAlive,
    ];
    for status in statuses {
        assert_eq!(exit_status(status).unwrap_err().status, status);
    }
}
