//! What a container is started with, and whether the host can give it.

use crate::binary64::{
    is_whole_part, kinds_of_numbers, nearest_to, products_are_rounded_once, products_stay_below,
    rounded, rounding_is_monotone, rounding_is_scale_free, small_numbers_are_kept,
    whole_numbers_exceed_smaller_ones, whole_numbers_multiply_exactly, Binary64,
    SIGNIFICAND_LIMIT,
};
use crate::cgroup::CgroupSettings;
use crate::filesystem::{rootfs_message, PivotRoot, RootfsError};
use crate::message::{plain, Message, Piece, PieceView};
use crate::path::FsPath;
use vstd::arithmetic::power2::{lemma_pow2_pos, pow2};
use vstd::prelude::*;

verus! {

/// What a container is started with.
#[derive(Debug, PartialEq, Eq)]
pub struct RunArgs {
    /// The directory of the root filesystem.
    pub rootfs: FsPath,
    /// The number of CPUs. A half is half of one CPU.
    pub cpus: Binary64,
    /// The limit of memory, in bytes.
    pub mem: u64,
    /// The limit of tasks, processes and threads.
    pub pids: u64,
    /// The user of the host that root is mapped to.
    pub uid: u32,
    /// The group of the host that root is mapped to.
    pub gid: u32,
    /// The command.
    pub cmd: String,
    /// The arguments of the command.
    pub args: Vec<String>,
}

/// Why a container is not started.
#[derive(Clone, Copy, PartialEq, Eq, Structural, Debug)]
pub enum ArgsFault {
    /// The root filesystem is not a directory.
    NotDirectory,
    /// The number of CPUs is not a finite number above zero.
    NotPositive,
    /// The number of CPUs is zero or less.
    AtMostZero,
    /// The host has fewer CPUs.
    TooMany,
    /// The number of CPUs comes to no time at all.
    TooSmall,
}

/// Why a container is not started, with what is to be said of it.
#[derive(Debug, PartialEq, Eq)]
pub enum ArgsError {
    NotDirectory(RootfsError),
    NotPositive { cpus: Binary64 },
    AtMostZero { cpus: Binary64 },
    TooMany { host_cpus: usize },
    TooSmall,
}

/// The CPU time, in each period, that a number of CPUs comes to.
pub open spec fn cpu_quota(cpus: Binary64) -> nat {
    cpus.whole_product(CgroupSettings::CPU_PERIOD_US as nat)
}

/// What speaks against a container on a host, if anything does.
pub open spec fn objection(
    rootfs_is_directory: bool,
    cpus: Binary64,
    host_cpus: nat,
) -> Option<ArgsFault> {
    if !rootfs_is_directory {
        Some(ArgsFault::NotDirectory)
    } else if !cpus.finite_and_positive() {
        Some(ArgsFault::NotPositive)
    } else if cpus.magnitude_exceeds(rounded(host_cpus)) {
        Some(ArgsFault::TooMany)
    } else if cpu_quota(cpus) == 0 {
        Some(ArgsFault::TooSmall)
    } else {
        None
    }
}

/// What speaks against a container on a host where it is run at once, if anything does. A
/// number of CPUs that is not above zero is told from one that is too large, and an infinite
/// one is too large.
pub open spec fn objection_to_run(
    rootfs_is_directory: bool,
    cpus: Binary64,
    host_cpus: nat,
) -> Option<ArgsFault> {
    if !rootfs_is_directory {
        Some(ArgsFault::NotDirectory)
    } else if cpus.at_most_zero() {
        Some(ArgsFault::AtMostZero)
    } else if cpus.nan() {
        Some(ArgsFault::NotPositive)
    } else if cpus.infinite() || cpus.magnitude_exceeds(rounded(host_cpus)) {
        Some(ArgsFault::TooMany)
    } else if cpu_quota(cpus) == 0 {
        Some(ArgsFault::TooSmall)
    } else {
        None
    }
}

/// The error says what speaks against the container.
pub open spec fn reports(
    error: ArgsError,
    fault: ArgsFault,
    args: RunArgs,
    host_cpus: usize,
) -> bool {
    match fault {
        ArgsFault::NotDirectory => error matches ArgsError::NotDirectory(inner)
            && inner.rootfs@ == args.rootfs@,
        ArgsFault::NotPositive => error == (ArgsError::NotPositive { cpus: args.cpus }),
        ArgsFault::AtMostZero => error == (ArgsError::AtMostZero { cpus: args.cpus }),
        ArgsFault::TooMany => error == (ArgsError::TooMany { host_cpus }),
        ArgsFault::TooSmall => error == ArgsError::TooSmall,
    }
}

/// The outcome is the right one: what speaks against the container, or else its limits.
pub open spec fn settled(
    args: RunArgs,
    fault: Option<ArgsFault>,
    host_cpus: usize,
    outcome: Result<CgroupSettings, ArgsError>,
) -> bool {
    match fault {
        Some(fault) => outcome matches Err(error) && reports(error, fault, args, host_cpus),
        None => outcome == Ok::<CgroupSettings, ArgsError>(
            CgroupSettings {
                cpu_quota_us: cpu_quota(args.cpus) as u64,
                memory_max: args.mem,
                pids_max: args.pids,
            },
        ),
    }
}

/// The outcome is the right one on a host.
pub open spec fn judged(
    args: RunArgs,
    rootfs_is_directory: bool,
    host_cpus: usize,
    outcome: Result<CgroupSettings, ArgsError>,
) -> bool {
    settled(
        args,
        objection(rootfs_is_directory, args.cpus, host_cpus as nat),
        host_cpus,
        outcome,
    )
}

/// The outcome is the right one on a host where the container is run at once.
pub open spec fn judged_to_run(
    args: RunArgs,
    rootfs_is_directory: bool,
    host_cpus: usize,
    outcome: Result<CgroupSettings, ArgsError>,
) -> bool {
    settled(
        args,
        objection_to_run(rootfs_is_directory, args.cpus, host_cpus as nat),
        host_cpus,
        outcome,
    )
}

impl ArgsError {
    /// `message` says what the error is about.
    pub open spec fn says(self, message: Seq<PieceView>) -> bool {
        match self {
            ArgsError::NotDirectory(error) => message == rootfs_message(error.rootfs@),
            ArgsError::NotPositive { cpus } => message == seq![
                PieceView::Text("--cpus must be finite and positive but got "@),
                PieceView::Number(cpus),
            ],
            ArgsError::AtMostZero { cpus } => message == seq![
                PieceView::Text("--cpus must be positive but got "@),
                PieceView::Number(cpus),
            ],
            ArgsError::TooMany { host_cpus } => exists|count: Binary64|
                {
                    &&& count.finite()
                    &&& !count.negative()
                    &&& #[trigger] count.stands_for(rounded(host_cpus as nat))
                    &&& message == seq![
                        PieceView::Text(
                            "--cpus must be less than or equal to `max_cpus`. you have only "@,
                        ),
                        PieceView::Number(count),
                        PieceView::Text(" cpus available"@),
                    ]
                },
            ArgsError::TooSmall => message == plain(
                "--cpus is too small for a nonzero CPU quota"@,
            ),
        }
    }

    /// What is said of the error.
    pub fn message(&self) -> (res: Message)
        ensures
            self.says(res@),
    {
        match self {
            ArgsError::NotDirectory(error) => error.message(),
            ArgsError::NotPositive { cpus } => {
                let res: Message = Message::text("--cpus must be finite and positive but got ")
                    .with(Piece::Number(*cpus));
                assert(res@ =~= seq![
                    PieceView::Text("--cpus must be finite and positive but got "@),
                    PieceView::Number(*cpus),
                ]);
                res
            },
            ArgsError::AtMostZero { cpus } => {
                let res: Message = Message::text("--cpus must be positive but got ").with(
                    Piece::Number(*cpus),
                );
                assert(res@ =~= seq![
                    PieceView::Text("--cpus must be positive but got "@),
                    PieceView::Number(*cpus),
                ]);
                res
            },
            ArgsError::TooMany { host_cpus } => {
                let count: Binary64 = Binary64::from_count(*host_cpus as u64);
                let res: Message = Message::text(
                    "--cpus must be less than or equal to `max_cpus`. you have only ",
                ).with(Piece::Number(count)).then_text(" cpus available");
                assert(res@ =~= seq![
                    PieceView::Text(
                        "--cpus must be less than or equal to `max_cpus`. you have only "@,
                    ),
                    PieceView::Number(count),
                    PieceView::Text(" cpus available"@),
                ]);
                res
            },
            ArgsError::TooSmall => Message::text("--cpus is too small for a nonzero CPU quota"),
        }
    }
}

impl RunArgs {
    /// The bits of the number of CPUs that a container gets where none is asked for: one.
    pub const DEFAULT_CPUS_BITS: u64 = 0x3ff0_0000_0000_0000;

    /// The limit of memory of a container where none is asked for.
    pub const DEFAULT_MEM: u64 = 536_870_912;

    /// The limit of tasks of a container where none is asked for.
    pub const DEFAULT_PIDS: u64 = 1024;

    /// The user that root is mapped to where none is asked for.
    pub const DEFAULT_UID: u32 = 0;

    /// The group that root is mapped to where none is asked for.
    pub const DEFAULT_GID: u32 = 0;

    /// The limits of the container on a host with so many CPUs, or what speaks against it.
    pub fn validate_for(&self, rootfs_is_directory: bool, host_cpus: usize) -> (res: Result<
        CgroupSettings,
        ArgsError,
    >)
        ensures
            judged(*self, rootfs_is_directory, host_cpus, res),
    {
        let root: PivotRoot = PivotRoot::new(self.rootfs.clone());
        if let Err(error) = root.validate_rootfs(rootfs_is_directory) {
            return Err(ArgsError::NotDirectory(error));
        }
        if !self.cpus.is_finite_and_positive() {
            return Err(ArgsError::NotPositive { cpus: self.cpus });
        }
        let available: u128 = Binary64::round_count(host_cpus as u64);
        if self.cpus.exceeds(available) {
            return Err(ArgsError::TooMany { host_cpus });
        }
        self.limits()
    }

    /// The limits of the container, if it gets CPU time at all.
    fn limits(&self) -> (res: Result<CgroupSettings, ArgsError>)
        requires
            self.cpus.finite(),
        ensures
            settled(
                *self,
                if cpu_quota(self.cpus) == 0 {
                    Some(ArgsFault::TooSmall)
                } else {
                    None
                },
                0,
                res,
            ),
    {
        let cpu_quota_us: u64 = self.cpus.multiply_to_whole(CgroupSettings::CPU_PERIOD_US);
        if cpu_quota_us == 0 {
            return Err(ArgsError::TooSmall);
        }
        Ok(CgroupSettings::new(cpu_quota_us, self.mem, self.pids))
    }

    /// The limits of the container where it is run at once on a host with so many CPUs, or
    /// what speaks against it.
    pub fn accept_for(&self, rootfs_is_directory: bool, host_cpus: usize) -> (res: Result<
        CgroupSettings,
        ArgsError,
    >)
        ensures
            judged_to_run(*self, rootfs_is_directory, host_cpus, res),
    {
        let root: PivotRoot = PivotRoot::new(self.rootfs.clone());
        if let Err(error) = root.validate_rootfs(rootfs_is_directory) {
            return Err(ArgsError::NotDirectory(error));
        }
        if self.cpus.is_at_most_zero() {
            return Err(ArgsError::AtMostZero { cpus: self.cpus });
        }
        if self.cpus.is_nan() {
            return Err(ArgsError::NotPositive { cpus: self.cpus });
        }
        let available: u128 = Binary64::round_count(host_cpus as u64);
        if self.cpus.is_infinite() || self.cpus.exceeds(available) {
            return Err(ArgsError::TooMany { host_cpus });
        }
        self.limits()
    }

    /// The limits of the container on this host, or what speaks against it.
    pub fn validate(&self, rootfs_is_directory: bool) -> (res: Result<CgroupSettings, ArgsError>)
        ensures
            exists|host_cpus: usize|
                host_cpus >= 1 && #[trigger] judged(*self, rootfs_is_directory, host_cpus, res),
    {
        let host_cpus: usize = available_cpus();
        self.validate_for(rootfs_is_directory, host_cpus)
    }

    /// The limits of the container where it is run at once on this host, or what speaks
    /// against it.
    pub fn accept(&self, rootfs_is_directory: bool) -> (res: Result<CgroupSettings, ArgsError>)
        ensures
            exists|host_cpus: usize|
                host_cpus >= 1 && #[trigger] judged_to_run(
                    *self,
                    rootfs_is_directory,
                    host_cpus,
                    res,
                ),
    {
        let host_cpus: usize = available_cpus();
        self.accept_for(rootfs_is_directory, host_cpus)
    }
}

/// Calls `num_cpus::get`, which promises at least one CPU. How many there are is up to the
/// host.
#[verifier::external_body]
fn available_cpus() -> (res: usize)
    ensures
        res >= 1,
{
    num_cpus::get()
}

/// A container that is accepted may run, and gets no more CPU time than the host has.
pub proof fn accepted_quotas_fit_the_host(cpus: Binary64, host_cpus: nat)
    requires
        objection(true, cpus, host_cpus) is None,
    ensures
        1 <= cpu_quota(cpus) <= rounded(rounded(host_cpus) * CgroupSettings::CPU_PERIOD_US as nat),
        host_cpus * CgroupSettings::CPU_PERIOD_US < SIGNIFICAND_LIMIT ==> cpu_quota(cpus)
            <= host_cpus * CgroupSettings::CPU_PERIOD_US,
{
    let period = CgroupSettings::CPU_PERIOD_US as nat;
    products_stay_below(cpus, rounded(host_cpus), period);
    if host_cpus * period < SIGNIFICAND_LIMIT {
        small_numbers_are_kept(host_cpus);
        small_numbers_are_kept(host_cpus * period);
    }
}

/// A whole number of CPUs, up to those of the host, is accepted, and comes to as many whole
/// periods, as long as that has at most 53 bits.
pub proof fn whole_cpus_are_whole_periods(cpus: Binary64, n: nat, host_cpus: nat)
    requires
        cpus.finite(),
        !cpus.negative(),
        cpus.stands_for(n),
        1 <= n <= host_cpus,
        n * CgroupSettings::CPU_PERIOD_US < SIGNIFICAND_LIMIT,
    ensures
        objection(true, cpus, host_cpus) is None,
        cpu_quota(cpus) == n * CgroupSettings::CPU_PERIOD_US,
{
    small_numbers_are_kept(n);
    rounding_is_monotone(n, host_cpus);
    whole_numbers_exceed_smaller_ones(cpus, n, rounded(host_cpus));
    whole_numbers_multiply_exactly(cpus, n, CgroupSettings::CPU_PERIOD_US as nat);
}

/// A number of CPUs that is not a finite number above zero is never accepted.
pub proof fn only_finite_positive_cpus_are_accepted(
    rootfs_is_directory: bool,
    cpus: Binary64,
    host_cpus: nat,
)
    requires
        !cpus.finite_and_positive(),
    ensures
        objection(rootfs_is_directory, cpus, host_cpus) is Some,
{
}

/// Both judgements accept the same containers, with the same limits. They differ only in how
/// they call a number of CPUs that neither accepts.
pub proof fn judgements_agree(
    args: RunArgs,
    rootfs_is_directory: bool,
    host_cpus: usize,
    settings: CgroupSettings,
)
    ensures
        judged(args, rootfs_is_directory, host_cpus, Ok(settings)) <==> judged_to_run(
            args,
            rootfs_is_directory,
            host_cpus,
            Ok(settings),
        ),
        objection(rootfs_is_directory, args.cpus, host_cpus as nat) is None <==> objection_to_run(
            rootfs_is_directory,
            args.cpus,
            host_cpus as nat,
        ) is None,
        args.cpus.finite_and_positive() ==> objection(
            rootfs_is_directory,
            args.cpus,
            host_cpus as nat,
        ) == objection_to_run(rootfs_is_directory, args.cpus, host_cpus as nat),
{
}

/// The quota is the number of CPUs times the 100000 microseconds of a period, in binary64
/// arithmetic, without what follows the point.
pub open spec fn is_quota_for(quota: u64, cpus: Binary64) -> bool {
    exists|n: nat| #[trigger]
        nearest_to(n, cpus.significand() * 100_000) && is_whole_part(
            quota as nat,
            n,
            cpus.power(),
        )
}

/// The number of CPUs is greater than the count.
pub open spec fn is_more_than(cpus: Binary64, count: nat) -> bool {
    if cpus.power() >= 0 {
        cpus.significand() * pow2(cpus.power() as nat) > count
    } else {
        cpus.significand() > count * pow2((-cpus.power()) as nat)
    }
}

/// The number of CPUs comes to one microsecond of each period or more, exactly.
pub open spec fn gets_some_time(cpus: Binary64) -> bool {
    if cpus.power() >= 0 {
        cpus.significand() > 0
    } else {
        cpus.significand() * 100_000 >= pow2((-cpus.power()) as nat)
    }
}

/// The limits of an accepted container are the ones that were asked for: memory and tasks as
/// they were given, and the CPU time that the number of CPUs comes to, fractions and all.
/// `at_once` tells whether the container is run at once.
pub proof fn accepted_limits_are_those_asked_for(
    args: RunArgs,
    rootfs_is_directory: bool,
    host_cpus: usize,
    at_once: bool,
    settings: CgroupSettings,
)
    requires
        judged_either_way(args, rootfs_is_directory, host_cpus, at_once, Ok(settings)),
    ensures
        settings.memory_max == args.mem,
        settings.pids_max == args.pids,
        settings.cpu_quota_us > 0,
        is_quota_for(settings.cpu_quota_us, args.cpus),
{
    products_are_rounded_once(args.cpus, 100_000);
}

/// The outcome is the right one on a host, for a container that is run at once or not.
pub open spec fn judged_either_way(
    args: RunArgs,
    rootfs_is_directory: bool,
    host_cpus: usize,
    at_once: bool,
    outcome: Result<CgroupSettings, ArgsError>,
) -> bool {
    if at_once {
        judged_to_run(args, rootfs_is_directory, host_cpus, outcome)
    } else {
        judged(args, rootfs_is_directory, host_cpus, outcome)
    }
}

/// A container is accepted only if its root filesystem is a directory and its number of CPUs
/// is finite, above zero, and not more than those of the host. Then it is refused only where
/// that comes to less than a microsecond of each period.
pub proof fn containers_are_accepted_within_the_host(
    args: RunArgs,
    rootfs_is_directory: bool,
    host_cpus: usize,
    at_once: bool,
    outcome: Result<CgroupSettings, ArgsError>,
)
    requires
        judged_either_way(args, rootfs_is_directory, host_cpus, at_once, outcome),
        host_cpus < SIGNIFICAND_LIMIT,
    ensures
        outcome is Ok ==> rootfs_is_directory && 0 < args.cpus.bits < 0x7ff0_0000_0000_0000
            && !is_more_than(args.cpus, host_cpus as nat),
        rootfs_is_directory && 0 < args.cpus.bits < 0x7ff0_0000_0000_0000 && !is_more_than(
            args.cpus,
            host_cpus as nat,
        ) && gets_some_time(args.cpus) ==> outcome is Ok,
{
    kinds_of_numbers(args.cpus);
    small_numbers_are_kept(host_cpus as nat);
    if gets_some_time(args.cpus) {
        some_time_is_a_quota(args.cpus);
    }
}

proof fn some_time_is_a_quota(cpus: Binary64)
    requires
        gets_some_time(cpus),
    ensures
        cpu_quota(cpus) > 0,
{
    let product = cpus.significand() * 100_000;
    if cpus.power() >= 0 {
        rounding_is_monotone(1, product);
        small_numbers_are_kept(1);
        lemma_pow2_pos(cpus.power() as nat);
        assert(rounded(product) * pow2(cpus.power() as nat) > 0) by (nonlinear_arith)
            requires
                rounded(product) > 0,
                pow2(cpus.power() as nat) > 0,
        ;
    } else {
        let scale = pow2((-cpus.power()) as nat);
        lemma_pow2_pos((-cpus.power()) as nat);
        rounding_is_monotone(scale, product);
        rounding_is_scale_free(1, (-cpus.power()) as nat);
        small_numbers_are_kept(1);
        assert(1 * scale == scale) by (nonlinear_arith);
        assert(rounded(product) / scale >= 1) by (nonlinear_arith)
            requires
                rounded(product) >= scale,
                scale > 0,
        ;
    }
}

/// A container that is refused is told why: first that its root filesystem is not a directory,
/// then that its number of CPUs is none that it can have, and each with what was given.
pub proof fn refusals_say_why(
    args: RunArgs,
    rootfs_is_directory: bool,
    host_cpus: usize,
    at_once: bool,
    error: ArgsError,
)
    requires
        judged_either_way(args, rootfs_is_directory, host_cpus, at_once, Err(error)),
        host_cpus < SIGNIFICAND_LIMIT,
    ensures
        error is NotDirectory <==> !rootfs_is_directory,
        error matches ArgsError::NotDirectory(inner) ==> inner.rootfs@ == args.rootfs@,
        rootfs_is_directory && !at_once ==> {
            let bits = args.cpus.bits;
            &&& error is NotPositive <==> !(0 < bits < 0x7ff0_0000_0000_0000)
            &&& error is TooMany <==> 0 < bits < 0x7ff0_0000_0000_0000 && is_more_than(
                args.cpus,
                host_cpus as nat,
            )
        },
        rootfs_is_directory && at_once ==> {
            let bits = args.cpus.bits;
            &&& error is AtMostZero <==> bits == 0 || 0x8000_0000_0000_0000 <= bits
                <= 0xfff0_0000_0000_0000
            &&& error is NotPositive <==> 0x7ff0_0000_0000_0000 < bits < 0x8000_0000_0000_0000
                || bits > 0xfff0_0000_0000_0000
            &&& error is TooMany <==> bits == 0x7ff0_0000_0000_0000 || (0 < bits
                < 0x7ff0_0000_0000_0000 && is_more_than(args.cpus, host_cpus as nat))
        },
        error is TooSmall ==> !gets_some_time(args.cpus),
        error matches ArgsError::NotPositive { cpus } ==> cpus == args.cpus,
        error matches ArgsError::AtMostZero { cpus } ==> cpus == args.cpus && at_once,
        error matches ArgsError::TooMany { host_cpus: count } ==> count == host_cpus,
{
    kinds_of_numbers(args.cpus);
    small_numbers_are_kept(host_cpus as nat);
    if gets_some_time(args.cpus) {
        some_time_is_a_quota(args.cpus);
    }
}

/// What is said of a refusal holds the number, or the path, that it is about.
pub proof fn refusals_show_what_they_are_about(error: ArgsError, message: Seq<PieceView>)
    requires
        error.says(message),
    ensures
        error matches ArgsError::NotDirectory(inner) ==> message == seq![
            PieceView::Text("rootfs "@),
            PieceView::QuotedPath(inner.rootfs@),
            PieceView::Text(" does not exist or is not a directory"@),
        ],
        error matches ArgsError::NotPositive { cpus } ==> message == seq![
            PieceView::Text("--cpus must be finite and positive but got "@),
            PieceView::Number(cpus),
        ],
        error matches ArgsError::AtMostZero { cpus } ==> message == seq![
            PieceView::Text("--cpus must be positive but got "@),
            PieceView::Number(cpus),
        ],
        error matches ArgsError::TooMany { host_cpus } ==> host_cpus < SIGNIFICAND_LIMIT ==> {
            &&& message.len() == 3
            &&& message[1] matches PieceView::Number(count)
            &&& count.bits < 0x7ff0_0000_0000_0000
            &&& !is_more_than(count, host_cpus as nat)
            &&& host_cpus > 0 ==> is_more_than(count, (host_cpus - 1) as nat)
        },
        error is TooSmall ==> message == seq![
            PieceView::Text("--cpus is too small for a nonzero CPU quota"@),
        ],
{
    if let ArgsError::TooMany { host_cpus } = error {
        if host_cpus < SIGNIFICAND_LIMIT {
            small_numbers_are_kept(host_cpus as nat);
            let count = message[1]->Number_0;
            kinds_of_numbers(count);
            whole_numbers_exceed_smaller_ones(count, host_cpus as nat, host_cpus as nat);
            if host_cpus > 0 {
                whole_numbers_exceed_smaller_ones(
                    count,
                    host_cpus as nat,
                    (host_cpus - 1) as nat,
                );
            }
        }
    }
}

} // verus!
