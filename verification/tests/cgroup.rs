use container_runtime::cgroup::{
    check_delegated_controllers, enable_payload, missing_controllers, Cgroup, CgroupSettings,
    Controller, Missing,
};
use container_runtime::message::{Message, Piece};
use container_runtime::path::FsPath;
use container_runtime::request::{Request, Task};

/// A directory that exists only in memory.
struct Directory {
    path: String,
    files: Vec<(String, String)>,
    removed: bool,
}

impl Directory {
    fn perform(&mut self, request: &Request) -> bool {
        match request {
            Request::Write(path, text) => {
                let path = String::from_utf8(path.bytes.clone()).unwrap();
                if !path.starts_with(&format!("{}/", self.path)) {
                    return false;
                }
                self.files.retain(|(name, _)| *name != path);
                self.files.push((path, text.clone()));
                true
            }
            Request::RemoveDir(path) => {
                let path = String::from_utf8(path.bytes.clone()).unwrap();
                self.removed = path == self.path && self.files.is_empty();
                self.removed
            }
            _ => false,
        }
    }

    fn read(&self, name: &str) -> &str {
        let path = format!("{}/{}", self.path, name);
        let (_, text) = self.files.iter().find(|(name, _)| *name == path).unwrap();
        text
    }
}

fn text_of(message: &Message) -> String {
    let mut text = String::new();
    for piece in &message.pieces {
        match piece {
            Piece::Text(part) => text.push_str(part),
            other => panic!("{other:?} is not text"),
        }
    }
    text
}

fn explained(task: &Task) -> Vec<String> {
    task.contexts.iter().map(text_of).collect()
}

#[test]
fn finds_only_missing_controllers_in_required_order() {
    assert_eq!(missing_controllers("cpu io\npids"), vec!["memory"]);
    assert_eq!(
        missing_controllers("memory cpu pids io"),
        Vec::<&str>::new()
    );
    assert_eq!(missing_controllers("memoryful cpu"), vec!["memory", "pids"]);
}

#[test]
fn rejects_a_missing_delegated_controller() {
    assert!(check_delegated_controllers("cpu memory pids io").is_ok());
    let error = check_delegated_controllers("cpu memory").unwrap_err();
    assert!(error.to_string().contains("controller pids not delegated"));
}

#[test]
fn writes_pid_and_limits_to_cgroup_files() {
    let path = "/tmp/container-runtime-cgroup/cgroup";
    let mut directory = Directory {
        path: path.to_string(),
        files: Vec::new(),
        removed: false,
    };
    let cgroup = Cgroup {
        path: FsPath::from_text(path),
    };

    let settings = CgroupSettings::new(50_000, 512 * 1024 * 1024, 64);
    assert!(directory.perform(&cgroup.add_pid(1234).request));
    for task in cgroup.configure(&settings) {
        assert!(directory.perform(&task.request));
    }

    assert_eq!(directory.read("cgroup.procs"), "1234");
    assert_eq!(directory.read("memory.max"), "536870912");
    assert_eq!(directory.read("cpu.max"), "50000 100000");
    assert_eq!(directory.read("pids.max"), "64");
    assert_eq!(directory.files.len(), 4);

    directory.files.clear();
    assert!(directory.perform(&cgroup.remove()));
    assert!(directory.removed);
}

#[test]
fn reports_the_file_when_a_limit_write_fails() {
    let mut directory = Directory {
        path: "/tmp/container-runtime-cgroup/cgroup".to_string(),
        files: Vec::new(),
        removed: false,
    };
    let cgroup = Cgroup {
        path: FsPath::from_text("/tmp/container-runtime-cgroup/missing"),
    };
    let task = cgroup.set_memory_max(1);
    assert!(!directory.perform(&task.request));
    assert!(explained(&task)[0].contains("write memory.max"));
}

#[test]
fn every_write_to_a_group_names_its_file() {
    let cgroup = Cgroup {
        path: FsPath::from_text("/group"),
    };
    assert_eq!(explained(&cgroup.add_pid(1)), ["write cgroup.procs"]);
    assert_eq!(explained(&cgroup.set_memory_max(1)), ["write memory.max"]);
    assert_eq!(explained(&cgroup.set_cpu_max(1, 2)), ["write cpu.max"]);
    assert_eq!(explained(&cgroup.set_pids_max(1)), ["write pids.max"]);
    assert_eq!(
        cgroup.set_cpu_max(u64::MAX, 0).request,
        Request::Write(
            FsPath::from_text("/group/cpu.max"),
            "18446744073709551615 0".to_string()
        )
    );
    assert_eq!(
        cgroup.add_pid(i32::MIN).request,
        Request::Write(
            FsPath::from_text("/group/cgroup.procs"),
            "-2147483648".to_string()
        )
    );
}

#[test]
fn limits_are_set_in_the_order_cpu_memory_tasks() {
    let cgroup = Cgroup {
        path: FsPath::from_text("/group"),
    };
    let settings = CgroupSettings::new(1, 2, 3);
    let tasks = cgroup.configure(&settings);
    let written: Vec<(String, String)> = tasks
        .into_iter()
        .map(|task| match task.request {
            Request::Write(path, text) => (String::from_utf8(path.bytes).unwrap(), text),
            other => panic!("{other:?} is not a write"),
        })
        .collect();
    let expected = [
        ("/group/cpu.max", "1 100000"),
        ("/group/memory.max", "2"),
        ("/group/pids.max", "3"),
    ];
    assert_eq!(written.len(), expected.len());
    for (found, wanted) in written.iter().zip(expected) {
        assert_eq!((found.0.as_str(), found.1.as_str()), wanted);
    }
}

#[test]
fn names_the_first_controller_that_is_not_delegated() {
    let text = |delegated: &str| check_delegated_controllers(delegated).unwrap_err().to_string();
    let rest = "not delegated to new cgroup (check parent's cgroup.subtree_control)";
    assert_eq!(text(""), format!("controller memory {rest}"));
    assert_eq!(text("memory"), format!("controller cpu {rest}"));
    assert_eq!(text("cpu\tmemory\n"), format!("controller pids {rest}"));
    assert_eq!(text("pids"), format!("controller memory {rest}"));
    assert_eq!(
        check_delegated_controllers("memory").unwrap_err().controller,
        Controller::Cpu
    );
}

#[test]
fn controllers_are_enabled_with_plus_signs_and_spaces() {
    assert_eq!(enable_payload(&vec![]), "");
    assert_eq!(enable_payload(&vec!["cpu"]), "+cpu");
    assert_eq!(enable_payload(&vec!["memory", "pids"]), "+memory +pids");
    assert_eq!(
        enable_payload(&missing_controllers("")),
        "+memory +cpu +pids"
    );
}

#[test]
fn an_accepted_list_lacks_nothing() {
    for list in ["", "cpu", "memory cpu", "memory cpu pids", "pids  cpu\nmemory io"] {
        assert_eq!(
            check_delegated_controllers(list).is_ok(),
            missing_controllers(list).is_empty()
        );
        assert_eq!(
            Missing::of(list).first_missing().is_none(),
            Missing::of(list).names().is_empty()
        );
    }
}
