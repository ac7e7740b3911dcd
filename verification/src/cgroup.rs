//! The control group of a container: making it, limiting it, and letting processes join.

use crate::message::{plain, Message, PieceView};
use crate::path::{file_in, joined, FsPath};
use crate::request::{add_task, explained_task, task_views, Request, RequestView, Task, TaskView};
use crate::text::{
    contains_word, decimal, has_word, is_space, is_word, numbers_are_spelled, numeral,
    separated_texts_keep_their_words, signed_decimal, spells, spells_signed, word_at,
    words_are_their_only_words, write_decimal, write_signed_decimal,
};
use vstd::prelude::*;
use vstd::utf8::encode_utf8;

verus! {

/// A resource controller that a container needs.
#[derive(Clone, Copy, PartialEq, Eq, Structural, Debug)]
pub enum Controller {
    Memory,
    Cpu,
    Pids,
}

impl Controller {
    /// What the system calls the controller.
    pub open spec fn called(self) -> Seq<char> {
        match self {
            Controller::Memory => "memory"@,
            Controller::Cpu => "cpu"@,
            Controller::Pids => "pids"@,
        }
    }

    /// What the system calls the controller.
    pub fn name(self) -> (res: &'static str)
        ensures
            res@ == self.called(),
    {
        match self {
            Controller::Memory => "memory",
            Controller::Cpu => "cpu",
            Controller::Pids => "pids",
        }
    }
}

/// Which of the controllers that a container needs are missing.
#[derive(Clone, Copy, PartialEq, Eq, Structural, Debug)]
pub struct Missing {
    pub memory: bool,
    pub cpu: bool,
    pub pids: bool,
}

/// The controllers that a container needs and the list `active` lacks.
pub open spec fn missing_in(active: Seq<char>) -> Missing {
    Missing {
        memory: !has_word(active, Controller::Memory.called()),
        cpu: !has_word(active, Controller::Cpu.called()),
        pids: !has_word(active, Controller::Pids.called()),
    }
}

/// The name in a list of its own if it is wanted, and no name otherwise.
pub open spec fn name_if(wanted: bool, controller: Controller) -> Seq<Seq<char>> {
    if wanted {
        seq![controller.called()]
    } else {
        seq![]
    }
}

impl Missing {
    /// No controller is missing.
    pub open spec fn nothing(self) -> bool {
        !self.memory && !self.cpu && !self.pids
    }

    /// The first controller that is missing, in the order memory, CPU, tasks.
    pub open spec fn first(self) -> Option<Controller> {
        if self.memory {
            Some(Controller::Memory)
        } else if self.cpu {
            Some(Controller::Cpu)
        } else if self.pids {
            Some(Controller::Pids)
        } else {
            None
        }
    }

    /// The names of the missing controllers, in the same order.
    pub open spec fn list(self) -> Seq<Seq<char>> {
        name_if(self.memory, Controller::Memory) + name_if(self.cpu, Controller::Cpu) + name_if(
            self.pids,
            Controller::Pids,
        )
    }

    /// The controllers that a container needs and the list `active` lacks.
    pub fn of(active: &str) -> (res: Missing)
        ensures
            res == missing_in(active@),
    {
        Missing {
            memory: !contains_word(active, Controller::Memory.name()),
            cpu: !contains_word(active, Controller::Cpu.name()),
            pids: !contains_word(active, Controller::Pids.name()),
        }
    }

    /// The names of the missing controllers.
    pub fn names(&self) -> (res: Vec<&'static str>)
        ensures
            name_views(res@) == self.list(),
    {
        let mut names: Vec<&'static str> = Vec::new();
        if self.memory {
            names.push(Controller::Memory.name());
        }
        if self.cpu {
            names.push(Controller::Cpu.name());
        }
        if self.pids {
            names.push(Controller::Pids.name());
        }
        assert(name_views(names@) =~= self.list());
        names
    }

    /// The first controller that is missing.
    pub fn first_missing(&self) -> (res: Option<Controller>)
        ensures
            res == self.first(),
    {
        if self.memory {
            Some(Controller::Memory)
        } else if self.cpu {
            Some(Controller::Cpu)
        } else if self.pids {
            Some(Controller::Pids)
        } else {
            None
        }
    }
}

/// What a list of names holds.
pub open spec fn name_views(names: Seq<&'static str>) -> Seq<Seq<char>> {
    names.map_values(|name: &'static str| name@)
}

/// The names of the controllers that a container needs and the list `active` lacks, in the
/// order memory, CPU, tasks.
pub fn missing_controllers(active: &str) -> (res: Vec<&'static str>)
    ensures
        name_views(res@) == missing_in(active@).list(),
{
    Missing::of(active).names()
}

/// A controller that a new group did not get.
#[derive(Clone, Copy, PartialEq, Eq, Structural, Debug)]
pub struct NotDelegated {
    pub controller: Controller,
}

/// What is said of a controller that a new group did not get.
pub open spec fn not_delegated_text(controller: Controller) -> Seq<char> {
    "controller "@ + controller.called()
        + " not delegated to new cgroup (check parent's cgroup.subtree_control)"@
}

impl NotDelegated {
    /// What is said of the error.
    pub fn to_string(&self) -> (res: String)
        ensures
            res@ == not_delegated_text(self.controller),
    {
        let mut text: String = String::from_str("controller ");
        text.append(self.controller.name());
        text.append(" not delegated to new cgroup (check parent's cgroup.subtree_control)");
        text
    }
}

/// Accepts the controllers of a new group if they are all that a container needs, and
/// otherwise names the first that is missing.
pub fn check_delegated_controllers(delegated: &str) -> (res: Result<(), NotDelegated>)
    ensures
        match res {
            Ok(_) => missing_in(delegated@).nothing(),
            Err(error) => missing_in(delegated@).first() == Some(error.controller),
        },
{
    match Missing::of(delegated).first_missing() {
        Some(controller) => Err(NotDelegated { controller }),
        None => Ok(()),
    }
}

/// The names with a plus sign before each and a space between them.
pub open spec fn enabling(names: Seq<Seq<char>>) -> Seq<char>
    decreases names.len(),
{
    if names.len() == 0 {
        seq![]
    } else if names.len() == 1 {
        "+"@ + names[0]
    } else {
        enabling(names.drop_last()) + " "@ + ("+"@ + names.last())
    }
}

/// What makes the system pass the controllers on to new groups.
pub fn enable_payload(names: &Vec<&'static str>) -> (res: String)
    ensures
        res@ == enabling(name_views(names@)),
{
    let ghost list = name_views(names@);
    let mut payload: String = String::new();
    let mut i: usize = 0;
    while i < names.len()
        invariant
            i <= names.len(),
            list == name_views(names@),
            payload@ == enabling(list.take(i as int)),
        decreases names.len() - i,
    {
        assert(list.take(i + 1).drop_last() =~= list.take(i as int));
        if i > 0 {
            payload.append(" ");
        }
        let mut item: String = String::from_str("+");
        item.append(names[i]);
        payload.append(item.as_str());
        assert(list[i as int] == names@[i as int]@);
        if i == 0 {
            assert(payload@ =~= "+"@ + list[0]);
        }
        i = i + 1;
    }
    assert(list.take(i as int) =~= list);
    payload
}

/// The limits of a group.
#[derive(Clone, Copy, PartialEq, Eq, Structural, Debug)]
pub struct CgroupSettings {
    pub cpu_quota_us: u64,
    pub memory_max: u64,
    pub pids_max: u64,
}

impl CgroupSettings {
    /// The time, in microseconds, that the CPU quota is a part of.
    pub const CPU_PERIOD_US: u64 = 100_000;

    /// The group may run at all.
    pub open spec fn valid(self) -> bool {
        self.cpu_quota_us > 0
    }

    /// The limits of a group that may run at all.
    pub fn new(cpu_quota_us: u64, memory_max: u64, pids_max: u64) -> (res: CgroupSettings)
        requires
            cpu_quota_us > 0,
        ensures
            res == (CgroupSettings { cpu_quota_us, memory_max, pids_max }),
            res.valid(),
    {
        CgroupSettings { cpu_quota_us, memory_max, pids_max }
    }
}

/// The group of a container: a directory.
#[derive(Debug, PartialEq, Eq)]
pub struct Cgroup {
    pub path: FsPath,
}

/// Write `text` to a file of the group.
pub open spec fn group_write(group: Seq<u8>, file: Seq<char>, text: Seq<char>) -> TaskView {
    explained_task(RequestView::Write(file_in(group, file), text), plain("write "@ + file))
}

/// Let a process join the group.
pub open spec fn joining(group: Seq<u8>, pid: i32) -> TaskView {
    group_write(group, "cgroup.procs"@, signed_decimal(pid as int))
}

/// Limit the memory of the group.
pub open spec fn memory_limit(group: Seq<u8>, bytes: u64) -> TaskView {
    group_write(group, "memory.max"@, decimal(bytes as nat))
}

/// Limit the CPU time of the group.
pub open spec fn cpu_limit(group: Seq<u8>, quota_us: u64, period_us: u64) -> TaskView {
    group_write(group, "cpu.max"@, decimal(quota_us as nat) + " "@ + decimal(period_us as nat))
}

/// Limit the tasks of the group.
pub open spec fn pids_limit(group: Seq<u8>, pids: u64) -> TaskView {
    group_write(group, "pids.max"@, decimal(pids as nat))
}

/// Set all limits of the group.
pub open spec fn limits(group: Seq<u8>, settings: CgroupSettings) -> Seq<TaskView> {
    seq![
        cpu_limit(group, settings.cpu_quota_us, CgroupSettings::CPU_PERIOD_US),
        memory_limit(group, settings.memory_max),
        pids_limit(group, settings.pids_max),
    ]
}

impl Cgroup {
    fn write(&self, file: &str, text: String) -> (res: Task)
        ensures
            res@ == group_write(self.path@, file@, text@),
    {
        let mut context: String = String::from_str("write ");
        context.append(file);
        Task::explained(
            Request::Write(self.path.join(file), text),
            Message::text(context.as_str()),
        )
    }

    /// Lets a process join the group.
    pub fn add_pid(&self, pid: i32) -> (res: Task)
        ensures
            res@ == joining(self.path@, pid),
    {
        self.write("cgroup.procs", write_signed_decimal(pid))
    }

    /// Limits the memory of the group.
    pub fn set_memory_max(&self, bytes: u64) -> (res: Task)
        ensures
            res@ == memory_limit(self.path@, bytes),
    {
        self.write("memory.max", write_decimal(bytes))
    }

    /// Limits the CPU time of the group to a quota of each period.
    pub fn set_cpu_max(&self, quota_us: u64, period_us: u64) -> (res: Task)
        ensures
            res@ == cpu_limit(self.path@, quota_us, period_us),
    {
        let mut text: String = write_decimal(quota_us);
        text.append(" ");
        text.append(write_decimal(period_us).as_str());
        self.write("cpu.max", text)
    }

    /// Limits the tasks of the group.
    pub fn set_pids_max(&self, pids: u64) -> (res: Task)
        ensures
            res@ == pids_limit(self.path@, pids),
    {
        self.write("pids.max", write_decimal(pids))
    }

    /// Sets all limits of the group.
    pub fn configure(&self, settings: &CgroupSettings) -> (res: Vec<Task>)
        ensures
            task_views(res@) == limits(self.path@, *settings),
    {
        let mut tasks: Vec<Task> = Vec::new();
        add_task(
            &mut tasks,
            self.set_cpu_max(settings.cpu_quota_us, CgroupSettings::CPU_PERIOD_US),
        );
        add_task(&mut tasks, self.set_memory_max(settings.memory_max));
        add_task(&mut tasks, self.set_pids_max(settings.pids_max));
        assert(task_views(tasks@) =~= limits(self.path@, *settings));
        tasks
    }

    /// Takes the group away.
    pub fn remove(&self) -> (res: Request)
        ensures
            res@ == RequestView::RemoveDir(self.path@),
    {
        Request::RemoveDir(self.path.clone())
    }
}

/// Each name of a list is asked for, with a plus sign before it, as a word of its own.
pub proof fn every_name_is_asked_for(names: Seq<Seq<char>>, i: int)
    requires
        0 <= i < names.len(),
        is_word(names[i]),
    ensures
        has_word(enabling(names), "+"@ + names[i]),
    decreases names.len(),
{
    let word = "+"@ + names[i];
    let text = enabling(names);
    reveal_strlit(" ");
    reveal_strlit("+");
    assert(is_word(word)) by {
        assert forall|k: int| 0 <= k < word.len() implies !is_space(#[trigger] word[k]) by {
            if k > 0 {
                assert(word[k] == names[i][k - 1]);
            }
        }
    }
    if names.len() == 1 {
        assert(text.subrange(0, word.len() as int) =~= word);
        assert(word_at(text, word, 0));
    } else {
        let before = enabling(names.drop_last());
        if i == names.len() - 1 {
            let at = before.len() as int + 1;
            assert(text.subrange(at, at + word.len()) =~= word);
            assert(text[at - 1] == ' ');
            assert(word_at(text, word, at));
        } else {
            every_name_is_asked_for(names.drop_last(), i);
            assert(names.drop_last()[i] == names[i]);
            let at = choose|at: int| word_at(before, word, at);
            let end = at + word.len();
            assert(text.subrange(at, end) =~= before.subrange(at, end));
            assert(at > 0 ==> text[at - 1] == before[at - 1]);
            if end == before.len() {
                assert(text[end] == ' ');
            } else {
                assert(text[end] == before[end]);
            }
            assert(word_at(text, word, at));
        }
    }
}

/// Each controller that a list lacks is asked for.
pub proof fn missing_controllers_are_asked_for(active: Seq<char>, controller: Controller)
    requires
        !has_word(active, controller.called()),
    ensures
        has_word(enabling(missing_in(active).list()), "+"@ + controller.called()),
{
    let missing = missing_in(active);
    let list = missing.list();
    reveal_strlit("memory");
    reveal_strlit("cpu");
    reveal_strlit("pids");
    let memory: int = if missing.memory {
        1
    } else {
        0
    };
    let cpu: int = if missing.cpu {
        1
    } else {
        0
    };
    let i = match controller {
        Controller::Memory => 0int,
        Controller::Cpu => memory,
        Controller::Pids => memory + cpu,
    };
    assert(list[i] == controller.called());
    every_name_is_asked_for(list, i);
}

/// The text spells the number out.
pub open spec fn spells_number(text: Seq<char>, n: u64) -> bool {
    spells(text, n as nat, 10)
}

/// A group is limited to the very numbers that were given, each spelled out in the file of the
/// group that the system reads it from.
pub proof fn limits_are_spelled_out(group: Seq<u8>, settings: CgroupSettings)
    ensures
        limits(group, settings).len() == 3,
        limits(group, settings)[0].request matches RequestView::Write(path, text) && {
            &&& path == joined(group, encode_utf8("cpu.max"@))
            &&& text.len() > 7
            &&& spells_number(text.take(text.len() - 7), settings.cpu_quota_us)
            &&& text.skip(text.len() - 7) == seq![' ', '1', '0', '0', '0', '0', '0']
        },
        limits(group, settings)[1].request matches RequestView::Write(path, text) && {
            &&& path == joined(group, encode_utf8("memory.max"@))
            &&& spells_number(text, settings.memory_max)
        },
        limits(group, settings)[2].request matches RequestView::Write(path, text) && {
            &&& path == joined(group, encode_utf8("pids.max"@))
            &&& spells_number(text, settings.pids_max)
        },
{
    numbers_are_spelled(settings.cpu_quota_us as nat, 0);
    numbers_are_spelled(settings.memory_max as nat, 0);
    numbers_are_spelled(settings.pids_max as nat, 0);
    let quota = decimal(settings.cpu_quota_us as nat);
    let period = decimal(100_000);
    hundred_thousand_is_spelled();
    reveal_strlit(" ");
    let text = quota + " "@ + period;
    assert(text.take(text.len() - 7) =~= quota);
    assert(text.skip(text.len() - 7) =~= seq![' ', '1', '0', '0', '0', '0', '0']);
}

proof fn hundred_thousand_is_spelled()
    ensures
        decimal(100_000) == seq!['1', '0', '0', '0', '0', '0'],
{
    reveal_with_fuel(numeral, 7);
    assert(decimal(100_000) =~= seq!['1', '0', '0', '0', '0', '0']);
}

/// A quota and the period that it is a part of are both spelled out, with a space between
/// them.
pub proof fn cpu_limits_are_spelled_out(group: Seq<u8>, quota_us: u64, period_us: u64)
    ensures
        cpu_limit(group, quota_us, period_us).request matches RequestView::Write(path, text) && {
            &&& path == joined(group, encode_utf8("cpu.max"@))
            &&& exists|quota: Seq<char>, period: Seq<char>| #[trigger]
                spells_number(quota, quota_us) && #[trigger] spells_number(period, period_us)
                    && text == quota + seq![' '] + period
        },
{
    let quota = decimal(quota_us as nat);
    let period = decimal(period_us as nat);
    numbers_are_spelled(quota_us as nat, 0);
    numbers_are_spelled(period_us as nat, 0);
    reveal_strlit(" ");
    assert(spells_number(quota, quota_us) && spells_number(period, period_us));
    assert(quota + " "@ + period =~= quota + seq![' '] + period);
}

/// The very process that was given joins the group: its number is spelled out in the file that
/// lists the processes of the group.
pub proof fn given_processes_join(group: Seq<u8>, pid: i32)
    ensures
        joining(group, pid).request matches RequestView::Write(path, text) && {
            &&& path == joined(group, encode_utf8("cgroup.procs"@))
            &&& spells_signed(text, pid as int)
        },
{
    numbers_are_spelled(0, pid as int);
}

/// What is said of a failure names the file of the group that could not be written.
pub proof fn group_errors_name_their_files(
    group: Seq<u8>,
    settings: CgroupSettings,
    pid: i32,
)
    ensures
        limits(group, settings)[0].contexts == seq![seq![PieceView::Text("write cpu.max"@)]],
        limits(group, settings)[1].contexts == seq![seq![PieceView::Text("write memory.max"@)]],
        limits(group, settings)[2].contexts == seq![seq![PieceView::Text("write pids.max"@)]],
        joining(group, pid).contexts == seq![seq![PieceView::Text("write cgroup.procs"@)]],
{
    reveal_strlit("write ");
    reveal_strlit("cpu.max");
    reveal_strlit("memory.max");
    reveal_strlit("pids.max");
    reveal_strlit("cgroup.procs");
    reveal_strlit("write cpu.max");
    reveal_strlit("write memory.max");
    reveal_strlit("write pids.max");
    reveal_strlit("write cgroup.procs");
    assert("write "@ + "cpu.max"@ =~= "write cpu.max"@);
    assert("write "@ + "memory.max"@ =~= "write memory.max"@);
    assert("write "@ + "pids.max"@ =~= "write pids.max"@);
    assert("write "@ + "cgroup.procs"@ =~= "write cgroup.procs"@);
}

/// A controller is missing exactly if its name is no word of the list. The names that are
/// missing are listed in the order memory, CPU, tasks, and the first of them is the one that
/// is named alone.
pub proof fn missing_controllers_are_no_words(active: Seq<char>)
    ensures
        ({
            let missing = missing_in(active);
            let memory = !has_word(active, "memory"@);
            let cpu = !has_word(active, "cpu"@);
            let pids = !has_word(active, "pids"@);
            let listed = (if memory {
                seq!["memory"@]
            } else {
                seq![]
            }) + (if cpu {
                seq!["cpu"@]
            } else {
                seq![]
            }) + (if pids {
                seq!["pids"@]
            } else {
                seq![]
            });
            &&& missing.list() == listed
            &&& missing.nothing() <==> !memory && !cpu && !pids
            &&& missing.first() is None <==> !memory && !cpu && !pids
            &&& missing.first() == Some(Controller::Memory) <==> memory
            &&& missing.first() == Some(Controller::Cpu) <==> !memory && cpu
            &&& missing.first() == Some(Controller::Pids) <==> !memory && !cpu && pids
        }),
{
}

/// Nothing is asked for but the names of the list, each with a plus sign before it.
pub proof fn only_the_names_are_asked_for(names: Seq<Seq<char>>, word: Seq<char>)
    requires
        forall|i: int| 0 <= i < names.len() ==> is_word(#[trigger] names[i]),
        has_word(enabling(names), word),
    ensures
        exists|i: int| 0 <= i < names.len() && word == seq!['+'] + #[trigger] names[i],
    decreases names.len(),
{
    reveal_strlit("+");
    reveal_strlit(" ");
    if names.len() == 0 {
        words_are_their_only_words(enabling(names), word);
    } else {
        let last = "+"@ + names.last();
        assert(last =~= seq!['+'] + names.last());
        assert(is_word(names[names.len() - 1]));
        assert(is_word(last)) by {
            assert forall|k: int| 0 <= k < last.len() implies !is_space(#[trigger] last[k]) by {
                if k > 0 {
                    assert(last[k] == names.last()[k - 1]);
                }
            }
        }
        words_are_their_only_words(last, word);
        words_are_their_only_words(enabling(names), word);
        if names.len() > 1 {
            let before = names.drop_last();
            assert(enabling(names) =~= enabling(before).push(' ') + last);
            separated_texts_keep_their_words(enabling(before), ' ', last, word);
            if has_word(enabling(before), word) {
                assert forall|i: int| 0 <= i < before.len() implies is_word(
                    #[trigger] before[i],
                ) by {
                    assert(before[i] == names[i]);
                }
                only_the_names_are_asked_for(before, word);
                let i = choose|i: int|
                    0 <= i < before.len() && word == seq!['+'] + #[trigger] before[i];
                assert(names[i] == before[i]);
            } else {
                assert(word == seq!['+'] + names[names.len() - 1]);
            }
        } else {
            assert(word == seq!['+'] + names[0]);
        }
    }
}

/// What is said of a controller that a group lacks names it.
pub proof fn lacking_controllers_are_named(controller: Controller)
    ensures
        ({
            let start = "controller "@;
            let rest = " not delegated to new cgroup (check parent's cgroup.subtree_control)"@;
            &&& controller is Memory ==> not_delegated_text(controller) == start + "memory"@ + rest
            &&& controller is Cpu ==> not_delegated_text(controller) == start + "cpu"@ + rest
            &&& controller is Pids ==> not_delegated_text(controller) == start + "pids"@ + rest
        }),
{
}

} // verus!
