//! Mapping the root user of a user namespace to a user of the host.

use crate::message::{plain, Message, PieceView};
use crate::path::{paths_of_texts_are_distinct, FsPath};
use crate::request::{add_task, explained_task, task_views, Request, RequestView, Task, TaskView};
use crate::text::{
    decimal, numbers_are_spelled, signed_decimal, spells, spells_signed, write_decimal,
    write_signed_decimal,
};
use vstd::prelude::*;
use vstd::utf8::encode_utf8;

verus! {

/// The IDs of the host that root is mapped to in the user namespace of a process.
#[derive(Clone, Copy, PartialEq, Eq, Structural, Debug)]
pub struct Mapping {
    pub process_id: i32,
    pub host_uid: u32,
    pub host_gid: u32,
}

/// The name of a file about a process.
pub open spec fn proc_file(pid: i32, file: Seq<char>) -> Seq<char> {
    "/proc/"@ + signed_decimal(pid as int) + file
}

/// The line that maps ID 0, and no other, to the ID `host` outside.
pub open spec fn map_line(host: u32) -> Seq<char> {
    "0 "@ + decimal(host as nat) + " 1\n"@
}

/// Write `text` to a file about a process.
pub open spec fn proc_write(pid: i32, file: Seq<char>, text: Seq<char>) -> TaskView {
    explained_task(
        RequestView::Write(encode_utf8(proc_file(pid, file)), text),
        plain("write "@ + proc_file(pid, file)),
    )
}

impl Mapping {
    /// Map the user, give up the right to set groups, and map the group.
    pub open spec fn tasks(self) -> Seq<TaskView> {
        seq![
            proc_write(self.process_id, "/uid_map"@, map_line(self.host_uid)),
            proc_write(self.process_id, "/setgroups"@, "deny\n"@),
            proc_write(self.process_id, "/gid_map"@, map_line(self.host_gid)),
        ]
    }

    /// The mapping of root in the user namespace of a process.
    pub fn new(process_id: i32, host_uid: u32, host_gid: u32) -> (res: Mapping)
        ensures
            res == (Mapping { process_id, host_uid, host_gid }),
    {
        Mapping { process_id, host_uid, host_gid }
    }

    fn write(&self, file: &str, text: String) -> (res: Task)
        ensures
            res@ == proc_write(self.process_id, file@, text@),
    {
        let mut name: String = String::from_str("/proc/");
        name.append(write_signed_decimal(self.process_id).as_str());
        name.append(file);
        let mut context: String = String::from_str("write ");
        context.append(name.as_str());
        Task::explained(
            Request::Write(FsPath::from_text(name.as_str()), text),
            Message::text(context.as_str()),
        )
    }

    fn line(host: u32) -> (res: String)
        ensures
            res@ == map_line(host),
    {
        let mut line: String = String::from_str("0 ");
        line.append(write_decimal(host as u64).as_str());
        line.append(" 1\n");
        line
    }

    /// What makes the mapping hold. A group can be mapped only once groups can no longer be
    /// set, so the three writes stand in this order.
    pub fn map(&self) -> (res: Vec<Task>)
        ensures
            task_views(res@) == self.tasks(),
    {
        let mut tasks: Vec<Task> = Vec::new();
        add_task(&mut tasks, self.write("/uid_map", Mapping::line(self.host_uid)));
        add_task(&mut tasks, self.write("/setgroups", String::from_str("deny\n")));
        add_task(&mut tasks, self.write("/gid_map", Mapping::line(self.host_gid)));
        assert(task_views(tasks@) =~= self.tasks());
        tasks
    }
}

/// Before the group of any process is mapped, it has given up the right to set groups.
pub proof fn groups_are_denied_before_they_are_mapped(mapping: Mapping, i: int, text: Seq<char>)
    requires
        0 <= i < mapping.tasks().len(),
        mapping.tasks()[i].request == RequestView::Write(
            encode_utf8(proc_file(mapping.process_id, "/gid_map"@)),
            text,
        ),
    ensures
        exists|j: int|
            0 <= j < i && #[trigger] mapping.tasks()[j].request == RequestView::Write(
                encode_utf8(proc_file(mapping.process_id, "/setgroups"@)),
                "deny\n"@,
            ),
{
    let pid = mapping.process_id;
    let gid_map = proc_file(pid, "/gid_map"@);
    let prefix = "/proc/"@ + signed_decimal(pid as int);
    reveal_strlit("/gid_map");
    reveal_strlit("/uid_map");
    if i == 0 {
        let uid_map = proc_file(pid, "/uid_map"@);
        paths_of_texts_are_distinct(gid_map, uid_map);
        assert(gid_map[prefix.len() as int + 1] == 'g');
        assert(uid_map[prefix.len() as int + 1] == 'u');
    } else {
        assert(mapping.tasks()[1].request == RequestView::Write(
            encode_utf8(proc_file(pid, "/setgroups"@)),
            "deny\n"@,
        ));
        if i == 1 {
            reveal_strlit("/setgroups");
            paths_of_texts_are_distinct(gid_map, proc_file(pid, "/setgroups"@));
            assert(gid_map.len() != proc_file(pid, "/setgroups"@).len());
        }
    }
}

/// The text is a line that maps ID 0, one ID in all, to the ID `host`, which it spells out.
pub open spec fn maps_root_to(text: Seq<char>, host: u32) -> bool {
    let digits = text.subrange(2, text.len() - 3);
    &&& text.len() > 5
    &&& text.take(2) == seq!['0', ' ']
    &&& text.skip(text.len() - 3) == seq![' ', '1', '\n']
    &&& spells(digits, host as nat, 10)
}

/// The path is that of a file in the directory that the system has for a process.
pub open spec fn is_file_of_process(path: Seq<u8>, pid: i32, file: Seq<char>) -> bool {
    exists|digits: Seq<char>|
        #[trigger] spells_signed(digits, pid as int) && path == encode_utf8(
            seq!['/', 'p', 'r', 'o', 'c', '/'] + digits + seq!['/'] + file,
        )
}

/// Root is mapped to the very user and group of the host that were given, whichever they are,
/// for the very process that was given, after the right to set groups was given up.
pub proof fn root_is_mapped_to_the_given_ids(mapping: Mapping)
    ensures
        mapping.tasks().len() == 3,
        mapping.tasks()[0].request matches RequestView::Write(path, text) && is_file_of_process(
            path,
            mapping.process_id,
            "uid_map"@,
        ) && maps_root_to(text, mapping.host_uid),
        mapping.tasks()[1].request matches RequestView::Write(path, text) && is_file_of_process(
            path,
            mapping.process_id,
            "setgroups"@,
        ) && text == seq!['d', 'e', 'n', 'y', '\n'],
        mapping.tasks()[2].request matches RequestView::Write(path, text) && is_file_of_process(
            path,
            mapping.process_id,
            "gid_map"@,
        ) && maps_root_to(text, mapping.host_gid),
{
    let digits = signed_decimal(mapping.process_id as int);
    numbers_are_spelled(mapping.host_uid as nat, mapping.process_id as int);
    numbers_are_spelled(mapping.host_gid as nat, mapping.process_id as int);
    reveal_strlit("/proc/");
    reveal_strlit("/uid_map");
    reveal_strlit("/setgroups");
    reveal_strlit("/gid_map");
    reveal_strlit("uid_map");
    reveal_strlit("setgroups");
    reveal_strlit("gid_map");
    reveal_strlit("0 ");
    reveal_strlit(" 1\n");
    reveal_strlit("deny\n");
    let start = seq!['/', 'p', 'r', 'o', 'c', '/'] + digits + seq!['/'];
    assert(proc_file(mapping.process_id, "/uid_map"@) =~= start + "uid_map"@);
    assert(proc_file(mapping.process_id, "/setgroups"@) =~= start + "setgroups"@);
    assert(proc_file(mapping.process_id, "/gid_map"@) =~= start + "gid_map"@);
    assert("deny\n"@ =~= seq!['d', 'e', 'n', 'y', '\n']);
    lines_map_root(mapping.host_uid);
    lines_map_root(mapping.host_gid);
}

proof fn lines_map_root(host: u32)
    ensures
        maps_root_to(map_line(host), host),
{
    reveal_strlit("0 ");
    reveal_strlit(" 1\n");
    numbers_are_spelled(host as nat, 0);
    let line = map_line(host);
    assert(line.take(2) =~= seq!['0', ' ']);
    assert(line.skip(line.len() - 3) =~= seq![' ', '1', '\n']);
    assert(line.subrange(2, line.len() - 3) =~= decimal(host as nat));
}

/// A line maps root to one ID alone: different users are mapped by different lines.
pub proof fn lines_map_root_to_one_id(text: Seq<char>, a: u32, b: u32)
    requires
        maps_root_to(text, a),
        maps_root_to(text, b),
    ensures
        a == b,
{
}

/// What is said of a failure names the file that could not be written.
pub proof fn mapping_errors_name_their_files(mapping: Mapping)
    ensures
        forall|i: int|
            0 <= i < 3 ==> {
                &&& (#[trigger] mapping.tasks()[i]).contexts.len() == 1
                &&& mapping.tasks()[i].contexts[0].len() == 1
                &&& mapping.tasks()[i].contexts[0][0] matches PieceView::Text(text)
                &&& text.take(6) == seq!['w', 'r', 'i', 't', 'e', ' ']
                &&& mapping.tasks()[i].request matches RequestView::Write(path, _)
                &&& path == encode_utf8(text.skip(6))
            },
{
    reveal_strlit("write ");
    let pid = mapping.process_id;
    failed_writes_name_their_file(pid, "/uid_map"@);
    failed_writes_name_their_file(pid, "/setgroups"@);
    failed_writes_name_their_file(pid, "/gid_map"@);
}

proof fn failed_writes_name_their_file(pid: i32, file: Seq<char>)
    ensures
        ({
            let text = "write "@ + proc_file(pid, file);
            &&& text.take(6) == seq!['w', 'r', 'i', 't', 'e', ' ']
            &&& text.skip(6) == proc_file(pid, file)
        }),
{
    reveal_strlit("write ");
    let text = "write "@ + proc_file(pid, file);
    assert(text.take(6) =~= seq!['w', 'r', 'i', 't', 'e', ' ']);
    assert(text.skip(6) =~= proc_file(pid, file));
}

} // verus!
