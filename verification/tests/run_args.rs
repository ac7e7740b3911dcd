use container_runtime::binary64::Binary64;
use container_runtime::cgroup::CgroupSettings;
use container_runtime::filesystem::RootfsError;
use container_runtime::message::{Message, Piece};
use container_runtime::path::FsPath;
use container_runtime::run_args::{ArgsError, RunArgs};
use std::path::Path;

fn number(x: f64) -> Binary64 {
    Binary64 { bits: x.to_bits() }
}

fn arguments(cpus: f64) -> RunArgs {
    RunArgs {
        rootfs: FsPath::from_text("/"),
        cpus: number(cpus),
        mem: 1,
        pids: 1,
        uid: 0,
        gid: 0,
        cmd: String::from("true"),
        args: Vec::new(),
    }
}

fn shown(message: &Message) -> String {
    let mut text = String::new();
    for piece in &message.pieces {
        match piece {
            Piece::Text(part) => text.push_str(part),
            Piece::Number(number) => text.push_str(&f64::from_bits(number.bits).to_string()),
            Piece::QuotedPath(path) => {
                text.push_str(&format!("{:?}", String::from_utf8_lossy(&path.bytes)))
            }
            other => panic!("{other:?} is not expected"),
        }
    }
    text
}

#[test]
fn rejects_invalid_cpu_limits() {
    let mut args = arguments(1.0);
    let is_directory = Path::new("/").is_dir();

    assert!(args.validate(is_directory).is_ok());
    for cpus in [f64::NAN, f64::INFINITY, 0.0, -1.0, 0.000001] {
        args.cpus = number(cpus);
        assert!(args.validate(is_directory).is_err(), "accepted {cpus}");
    }
}

#[test]
fn limits_are_taken_over() {
    let mut args = arguments(0.5);
    args.mem = 1_048_576;
    args.pids = 64;
    assert_eq!(
        args.validate_for(true, 1),
        Ok(CgroupSettings {
            cpu_quota_us: 50_000,
            memory_max: 1_048_576,
            pids_max: 64
        })
    );
}

#[test]
fn quotas_are_rounded_towards_zero() {
    let quota = |cpus: f64| {
        arguments(cpus)
            .validate_for(true, 64)
            .map(|settings| settings.cpu_quota_us)
    };
    assert_eq!(quota(1.0), Ok(100_000));
    assert_eq!(quota(2.0), Ok(200_000));
    assert_eq!(quota(0.29), Ok(28_999));
    assert_eq!(quota(0.000019), Ok(1));
    assert_eq!(quota(0.00001), Ok(1));
    assert_eq!(quota(0.000009), Err(ArgsError::TooSmall));
    assert_eq!(quota(64.0), Ok(6_400_000));
    assert_eq!(
        quota(64.00000000000001),
        Err(ArgsError::TooMany { host_cpus: 64 })
    );
}

#[test]
fn each_objection_has_its_own_text() {
    let text = |args: RunArgs, is_directory: bool, host_cpus: usize| {
        shown(&args.validate_for(is_directory, host_cpus).unwrap_err().message())
    };
    assert_eq!(
        text(arguments(1.0), false, 4),
        "rootfs \"/\" does not exist or is not a directory"
    );
    assert_eq!(
        text(arguments(f64::NAN), true, 4),
        "--cpus must be finite and positive but got NaN"
    );
    assert_eq!(
        text(arguments(f64::INFINITY), true, 4),
        "--cpus must be finite and positive but got inf"
    );
    assert_eq!(
        text(arguments(-1.5), true, 4),
        "--cpus must be finite and positive but got -1.5"
    );
    assert_eq!(
        text(arguments(4.5), true, 4),
        "--cpus must be less than or equal to `max_cpus`. you have only 4 cpus available"
    );
    assert_eq!(
        text(arguments(1e-9), true, 4),
        "--cpus is too small for a nonzero CPU quota"
    );
}

#[test]
fn the_root_filesystem_is_judged_first() {
    assert_eq!(
        arguments(f64::NAN).validate_for(false, 1),
        Err(ArgsError::NotDirectory(RootfsError {
            rootfs: FsPath::from_text("/")
        }))
    );
    assert_eq!(
        arguments(f64::NEG_INFINITY).validate_for(true, 1),
        Err(ArgsError::NotPositive {
            cpus: number(f64::NEG_INFINITY)
        })
    );
}

#[test]
fn the_host_sets_the_limit_of_cpus() {
    let cpus = num_cpus::get();
    let settings = arguments(cpus as f64).validate(true).unwrap();
    assert_eq!(settings.cpu_quota_us, cpus as u64 * 100_000);
    assert_eq!(
        arguments(cpus as f64 + 0.5).validate(true),
        Err(ArgsError::TooMany { host_cpus: cpus })
    );
}

#[test]
fn whole_cpus_come_to_whole_periods() {
    for n in 1..=256u32 {
        assert_eq!(
            arguments(f64::from(n))
                .validate_for(true, 256)
                .unwrap()
                .cpu_quota_us,
            u64::from(n) * CgroupSettings::CPU_PERIOD_US
        );
    }
}

#[test]
fn defaults_are_one_cpu_and_half_a_gigabyte() {
    assert_eq!(f64::from_bits(RunArgs::DEFAULT_CPUS_BITS), 1.0);
    assert_eq!(RunArgs::DEFAULT_MEM, 512 * 1024 * 1024);
    assert_eq!(RunArgs::DEFAULT_PIDS, 1024);
    assert_eq!(RunArgs::DEFAULT_UID, 0);
    assert_eq!(RunArgs::DEFAULT_GID, 0);
}

#[test]
fn both_judgements_accept_the_same_containers() {
    let numbers = [
        1.0,
        0.5,
        4.0,
        4.5,
        0.0,
        -0.0,
        -3.0,
        1e-9,
        1e300,
        f64::NAN,
        f64::INFINITY,
        f64::NEG_INFINITY,
    ];
    for cpus in numbers {
        for is_directory in [true, false] {
            assert_eq!(
                arguments(cpus).validate_for(is_directory, 4).ok(),
                arguments(cpus).accept_for(is_directory, 4).ok(),
                "{cpus}"
            );
        }
    }
    assert_eq!(
        arguments(f64::INFINITY).accept_for(true, 4),
        Err(ArgsError::TooMany { host_cpus: 4 })
    );
    assert_eq!(
        arguments(0.0).accept_for(true, 4),
        Err(ArgsError::AtMostZero { cpus: number(0.0) })
    );
    assert!(matches!(
        arguments(f64::NAN).accept_for(true, 4),
        Err(ArgsError::NotPositive { .. })
    ));
    let cpus = num_cpus::get();
    assert_eq!(
        arguments(cpus as f64).accept(true).unwrap().cpu_quota_us,
        cpus as u64 * 100_000
    );
}
