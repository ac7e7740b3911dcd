//! Making the control group of a container, step by step.

use crate::cgroup::{
    check_delegated_controllers, enable_payload, enabling, missing_controllers_are_asked_for,
    missing_controllers_are_no_words, missing_in, not_delegated_text, only_the_names_are_asked_for,
    Cgroup, Controller, Missing, NotDelegated,
};
use crate::message::{message_views, plain, Message, PieceView};
use crate::path::{file_in, joined, paths_of_texts_are_distinct, FsPath, SEPARATOR};
use crate::request::{answers, Failure, FailureView, Reply, Request, RequestView};
use crate::text::{
    has_word, hexadecimal, is_word, numbers_are_spelled, numeral_is_injective, numerals_are_ascii,
    spells, write_hexadecimal,
};
use vstd::prelude::*;
use vstd::utf8::{encode_utf8, is_ascii_chars, is_ascii_chars_encode_utf8};

verus! {

/// Why a group was not made.
#[derive(Clone, Copy, PartialEq, Eq, Structural, Debug)]
pub enum Refusal {
    /// Control groups of version 2 are not mounted.
    NotVersion2,
    /// Only root may make groups.
    NotRoot,
    /// The active controllers could not be read.
    ActiveUnreadable,
    /// The missing controllers could not be made active.
    NotEnabled,
    /// The directory of the group could not be made.
    NotCreated,
    /// The controllers of the group could not be read.
    DelegatedUnreadable,
    /// The group lacks a controller.
    NotDelegated(Controller),
}

/// How far the making of a group has come.
#[derive(Clone, Copy, PartialEq, Eq, Structural, Debug)]
pub enum Creation {
    /// Looking for the file that only version 2 has.
    FindMarker,
    /// Reading which controllers are passed on to new groups.
    ReadActive,
    /// Having more controllers passed on.
    EnableMissing { missing: Missing },
    /// Making the directory.
    CreateDirectory { id: u64 },
    /// Reading which controllers the group has.
    ReadDelegated { id: u64 },
    /// The group is made.
    Created { id: u64 },
    /// The group is not made.
    Refused { refusal: Refusal },
}

/// The directory that holds all groups.
pub open spec fn cgroup_root() -> Seq<u8> {
    encode_utf8("/sys/fs/cgroup"@)
}

/// The file that names the controllers that are passed on to new groups.
pub open spec fn subtree_control() -> Seq<u8> {
    encode_utf8("/sys/fs/cgroup/cgroup.subtree_control"@)
}

/// The name of a group.
pub open spec fn group_name(id: u64) -> Seq<char> {
    "rust_container_"@ + hexadecimal(id as nat)
}

/// The directory of a group.
pub open spec fn group_path(id: u64) -> Seq<u8> {
    file_in(cgroup_root(), group_name(id))
}

impl Refusal {
    /// What is said of the refusal.
    pub open spec fn explanation(self) -> FailureView {
        match self {
            Refusal::NotVersion2 => FailureView {
                cause: Some(plain("cgroupfs is not v2 (or not mounted)"@)),
                contexts: seq![],
            },
            Refusal::NotRoot => FailureView {
                cause: Some(plain("cgroup operations require root privileges"@)),
                contexts: seq![],
            },
            Refusal::ActiveUnreadable => FailureView { cause: None, contexts: seq![] },
            Refusal::NotEnabled => FailureView {
                cause: None,
                contexts: seq![plain("failed to enable controllers"@)],
            },
            Refusal::NotCreated => FailureView {
                cause: None,
                contexts: seq![plain("create cgroup dir"@)],
            },
            Refusal::DelegatedUnreadable => FailureView {
                cause: None,
                contexts: seq![plain("read new cgroup.controllers"@)],
            },
            Refusal::NotDelegated(controller) => FailureView {
                cause: Some(plain(not_delegated_text(controller))),
                contexts: seq![],
            },
        }
    }

    fn system(text: &str) -> (res: Failure)
        ensures
            res@ == (FailureView { cause: None, contexts: seq![plain(text@)] }),
    {
        let mut contexts: Vec<Message> = Vec::new();
        contexts.push(Message::text(text));
        assert(message_views(contexts@) =~= seq![plain(text@)]);
        Failure::of_system(contexts)
    }

    /// What is said of the refusal.
    pub fn explain(&self) -> (res: Failure)
        ensures
            res@ == self.explanation(),
    {
        match self {
            Refusal::NotVersion2 => Failure::of_runtime(
                Message::text("cgroupfs is not v2 (or not mounted)"),
            ),
            Refusal::NotRoot => Failure::of_runtime(
                Message::text("cgroup operations require root privileges"),
            ),
            Refusal::ActiveUnreadable => {
                let contexts: Vec<Message> = Vec::new();
                assert(message_views(contexts@) =~= Seq::<Seq<PieceView>>::empty());
                Failure::of_system(contexts)
            },
            Refusal::NotEnabled => Refusal::system("failed to enable controllers"),
            Refusal::NotCreated => Refusal::system("create cgroup dir"),
            Refusal::DelegatedUnreadable => Refusal::system("read new cgroup.controllers"),
            Refusal::NotDelegated(controller) => {
                let error: NotDelegated = NotDelegated { controller: *controller };
                Failure::of_runtime(Message::text(error.to_string().as_str()))
            },
        }
    }
}

impl Creation {
    /// What the system is asked for next, unless the making of the group has ended.
    pub open spec fn asks(self) -> Option<RequestView> {
        match self {
            Creation::FindMarker => Some(
                RequestView::IsFile(file_in(cgroup_root(), "cgroup.controllers"@)),
            ),
            Creation::ReadActive => Some(RequestView::Read(subtree_control())),
            Creation::EnableMissing { missing } => Some(
                RequestView::Write(subtree_control(), enabling(missing.list())),
            ),
            Creation::CreateDirectory { id } => Some(RequestView::CreateDir(group_path(id))),
            Creation::ReadDelegated { id } => Some(
                RequestView::Read(file_in(group_path(id), "cgroup.controllers"@)),
            ),
            Creation::Created { .. } => None,
            Creation::Refused { .. } => None,
        }
    }

    /// How the making of the group goes on after a reply. `root` tells whether the process
    /// belongs to root, and `new_id` is the number that a new group is named by.
    pub open spec fn after(self, reply: Reply, root: bool, new_id: u64) -> Creation {
        match (self, reply) {
            (Creation::FindMarker, Reply::Answer(found)) => if !found {
                Creation::Refused { refusal: Refusal::NotVersion2 }
            } else if !root {
                Creation::Refused { refusal: Refusal::NotRoot }
            } else {
                Creation::ReadActive
            },
            (Creation::ReadActive, Reply::Text(active)) => if missing_in(active@).nothing() {
                Creation::CreateDirectory { id: new_id }
            } else {
                Creation::EnableMissing { missing: missing_in(active@) }
            },
            (Creation::ReadActive, _) => Creation::Refused { refusal: Refusal::ActiveUnreadable },
            (Creation::EnableMissing { .. }, Reply::Done) => Creation::CreateDirectory {
                id: new_id,
            },
            (Creation::EnableMissing { .. }, _) => Creation::Refused {
                refusal: Refusal::NotEnabled,
            },
            (Creation::CreateDirectory { id }, Reply::Done) => Creation::ReadDelegated { id },
            (Creation::CreateDirectory { .. }, _) => Creation::Refused {
                refusal: Refusal::NotCreated,
            },
            (Creation::ReadDelegated { id }, Reply::Text(delegated)) => match missing_in(
                delegated@,
            ).first() {
                Some(controller) => Creation::Refused {
                    refusal: Refusal::NotDelegated(controller),
                },
                None => Creation::Created { id },
            },
            (Creation::ReadDelegated { .. }, _) => Creation::Refused {
                refusal: Refusal::DelegatedUnreadable,
            },
            (ended, _) => ended,
        }
    }

    /// What the system is asked for next, unless the making of the group has ended.
    pub fn request(&self) -> (res: Option<Request>)
        ensures
            match res {
                Some(request) => self.asks() == Some(request@),
                None => self.asks() is None,
            },
    {
        let root: FsPath = FsPath::from_text("/sys/fs/cgroup");
        match self {
            Creation::FindMarker => Some(Request::IsFile(root.join("cgroup.controllers"))),
            Creation::ReadActive => Some(
                Request::Read(FsPath::from_text("/sys/fs/cgroup/cgroup.subtree_control")),
            ),
            Creation::EnableMissing { missing } => Some(
                Request::Write(
                    FsPath::from_text("/sys/fs/cgroup/cgroup.subtree_control"),
                    enable_payload(&missing.names()),
                ),
            ),
            Creation::CreateDirectory { id } => Some(Request::CreateDir(Cgroup::named(*id).path)),
            Creation::ReadDelegated { id } => Some(
                Request::Read(Cgroup::named(*id).path.join("cgroup.controllers")),
            ),
            Creation::Created { .. } => None,
            Creation::Refused { .. } => None,
        }
    }

    /// How the making of the group goes on after a reply.
    pub fn advance(self, reply: &Reply, root: bool, new_id: u64) -> (res: Creation)
        requires
            self.asks() matches Some(request) && answers(request, *reply),
        ensures
            res == self.after(*reply, root, new_id),
    {
        match self {
            Creation::FindMarker => match reply {
                Reply::Answer(found) => if !*found {
                    Creation::Refused { refusal: Refusal::NotVersion2 }
                } else if !root {
                    Creation::Refused { refusal: Refusal::NotRoot }
                } else {
                    Creation::ReadActive
                },
                _ => self,
            },
            Creation::ReadActive => match reply {
                Reply::Text(active) => {
                    let missing: Missing = Missing::of(active.as_str());
                    match missing.first_missing() {
                        Some(_) => Creation::EnableMissing { missing },
                        None => Creation::CreateDirectory { id: new_id },
                    }
                },
                _ => Creation::Refused { refusal: Refusal::ActiveUnreadable },
            },
            Creation::EnableMissing { .. } => match reply {
                Reply::Done => Creation::CreateDirectory { id: new_id },
                _ => Creation::Refused { refusal: Refusal::NotEnabled },
            },
            Creation::CreateDirectory { id } => match reply {
                Reply::Done => Creation::ReadDelegated { id },
                _ => Creation::Refused { refusal: Refusal::NotCreated },
            },
            Creation::ReadDelegated { id } => match reply {
                Reply::Text(delegated) => match check_delegated_controllers(delegated.as_str()) {
                    Ok(_) => Creation::Created { id },
                    Err(error) => Creation::Refused {
                        refusal: Refusal::NotDelegated(error.controller),
                    },
                },
                _ => Creation::Refused { refusal: Refusal::DelegatedUnreadable },
            },
            Creation::Created { .. } => self,
            Creation::Refused { .. } => self,
        }
    }

    /// Whether the process belongs to root, where it matters, and a fresh number, where one is
    /// needed.
    pub(crate) fn circumstances(&self) -> (res: (bool, u64))
        ensures
            !(self is FindMarker) ==> !res.0,
            !(self is ReadActive) && !(self is EnableMissing) ==> res.1 == 0,
    {
        match self {
            Creation::FindMarker => (runs_as_root(), 0),
            Creation::ReadActive => (false, random_id()),
            Creation::EnableMissing { .. } => (false, random_id()),
            _ => (false, 0),
        }
    }

    /// How the making of the group goes on after a reply, in this process and with a fresh
    /// name for the group.
    pub fn resume(self, reply: &Reply) -> (res: Creation)
        requires
            self.asks() matches Some(request) && answers(request, *reply),
        ensures
            exists|root: bool, new_id: u64| res == #[trigger] self.after(*reply, root, new_id),
    {
        let (root, new_id): (bool, u64) = self.circumstances();
        self.advance(reply, root, new_id)
    }
}

impl Cgroup {
    /// Begins to make a group.
    pub fn new() -> (res: Creation)
        ensures
            res == Creation::FindMarker,
    {
        Creation::FindMarker
    }

    /// The group that is named by a number.
    pub fn named(id: u64) -> (res: Cgroup)
        ensures
            res.path@ == group_path(id),
    {
        let mut name: String = String::from_str("rust_container_");
        name.append(write_hexadecimal(id).as_str());
        Cgroup { path: FsPath::from_text("/sys/fs/cgroup").join(name.as_str()) }
    }
}

/// Calls `nix::unistd::geteuid` and `Uid::is_root`. Which user the process belongs to is up
/// to the system, so nothing is claimed of the answer.
#[verifier::external_body]
fn runs_as_root() -> (res: bool) {
    nix::unistd::geteuid().is_root()
}

/// Calls `rand::random`. Any number may come back, so nothing is claimed of it.
#[verifier::external_body]
fn random_id() -> (res: u64) {
    rand::random::<u64>()
}

/// Groups that are named by different numbers are different directories.
pub proof fn groups_are_distinct(a: u64, b: u64)
    requires
        group_path(a) == group_path(b),
    ensures
        a == b,
{
    let first = encode_utf8(group_name(a));
    let second = encode_utf8(group_name(b));
    let base = cgroup_root();
    group_names_are_relative(a);
    group_names_are_relative(b);
    let prefix = if base.len() == 0 || base.last() == SEPARATOR {
        base
    } else {
        base.push(SEPARATOR)
    };
    assert(first =~= group_path(a).skip(prefix.len() as int));
    assert(second =~= group_path(b).skip(prefix.len() as int));
    paths_of_texts_are_distinct(group_name(a), group_name(b));
    let start = "rust_container_"@.len() as int;
    assert(hexadecimal(a as nat) =~= group_name(a).skip(start));
    assert(hexadecimal(b as nat) =~= group_name(b).skip(start));
    numeral_is_injective(a as nat, b as nat, 16);
}

proof fn group_names_are_relative(id: u64)
    ensures
        encode_utf8(group_name(id)).len() > 0,
        encode_utf8(group_name(id))[0] != SEPARATOR,
{
    reveal_strlit("rust_container_");
    numerals_are_ascii(id as nat, 16);
    assert(is_ascii_chars("rust_container_"@));
    assert(is_ascii_chars(group_name(id)));
    is_ascii_chars_encode_utf8(group_name(id));
    assert(group_name(id)[0] == 'r');
}

/// One answer of the system while a group is made, and what the step was given with it.
pub struct Happening {
    pub reply: Reply,
    pub root: bool,
    pub new_id: u64,
}

/// How far the making of a group has come after all that happened.
pub open spec fn progress(history: Seq<Happening>) -> Creation
    decreases history.len(),
{
    if history.len() == 0 {
        Creation::FindMarker
    } else {
        let last = history.last();
        progress(history.drop_last()).after(last.reply, last.root, last.new_id)
    }
}

/// Every reply was one that its request can have.
pub open spec fn orderly(history: Seq<Happening>) -> bool
    decreases history.len(),
{
    history.len() == 0 || {
        &&& orderly(history.drop_last())
        &&& progress(history.drop_last()).asks() matches Some(request)
        &&& answers(request, history.last().reply)
    }
}

/// A group is made only by root, where version 2 is mounted, and only if the group has every
/// controller that a container needs.
pub proof fn made_groups_are_fit(history: Seq<Happening>, id: u64)
    requires
        orderly(history),
        progress(history) == (Creation::Created { id }),
    ensures
        history.len() >= 4,
        history[0].reply == Reply::Answer(true),
        history[0].root,
        history[history.len() - 2].reply == Reply::Done,
        progress(history.take(history.len() - 2)) == (Creation::CreateDirectory { id }),
        history.last().reply matches Reply::Text(delegated) && {
            &&& has_word(delegated@, "memory"@)
            &&& has_word(delegated@, "cpu"@)
            &&& has_word(delegated@, "pids"@)
        },
{
    let before = history.drop_last();
    let earlier = before.drop_last();
    assert(history.len() > 0);
    assert(progress(before) == (Creation::ReadDelegated { id }));
    assert(before.len() > 0);
    assert(progress(earlier) == (Creation::CreateDirectory { id }));
    assert(earlier =~= history.take(history.len() - 2));
    assert(before.last() == history[history.len() - 2]);
    assert(orderly(before));
    assert(orderly(earlier));
    begun_only_by_root(earlier);
    assert(earlier[0] == history[0]);
    assert(earlier.len() >= 2) by {
        assert(earlier.len() > 0);
        assert(progress(earlier.drop_last()) is ReadActive || progress(
            earlier.drop_last(),
        ) is EnableMissing);
    }
}

/// What the reply to a request for a directory says of the directories before and after it:
/// one that is there already is not made.
pub open spec fn directory_made(
    path: Seq<u8>,
    reply: Reply,
    before: Set<Seq<u8>>,
    after: Set<Seq<u8>>,
) -> bool {
    if reply is Done {
        !before.contains(path) && after == before.insert(path)
    } else {
        after == before
    }
}

/// While a group is made, the system makes directories only where there are none. `before` and
/// `after` are the directories around each reply. Between replies, they may change in any way.
pub open spec fn directories_are_new(
    history: Seq<Happening>,
    before: Seq<Set<Seq<u8>>>,
    after: Seq<Set<Seq<u8>>>,
) -> bool {
    &&& before.len() == history.len()
    &&& after.len() == history.len()
    &&& forall|i: int|
        0 <= i < history.len() ==> (#[trigger] progress(history.take(i)).asks() matches Some(
            RequestView::CreateDir(path),
        ) ==> directory_made(path, history[i].reply, before[i], after[i]))
}

/// The directory was there all along.
pub open spec fn stays(directories: Seq<Set<Seq<u8>>>, path: Seq<u8>) -> bool {
    forall|n: int| 0 <= n < directories.len() ==> #[trigger] directories[n].contains(path)
}

/// A group that is made is new. When its directory was made, there was none of that name, and
/// so it is none of the groups that were there, as long as they stayed there.
pub proof fn made_groups_are_new(
    history: Seq<Happening>,
    before: Seq<Set<Seq<u8>>>,
    after: Seq<Set<Seq<u8>>>,
    id: u64,
)
    requires
        orderly(history),
        progress(history) == (Creation::Created { id }),
        directories_are_new(history, before, after),
    ensures
        exists|n: int|
            {
                &&& 0 <= n < history.len()
                &&& #[trigger] progress(history.take(n)) == (Creation::CreateDirectory { id })
                &&& history[n].reply == Reply::Done
                &&& !before[n].contains(group_path(id))
                &&& after[n] == before[n].insert(group_path(id))
            },
        forall|other: Seq<u8>| #[trigger] stays(before, other) ==> other != group_path(id),
{
    made_groups_are_fit(history, id);
    let n = history.len() - 2;
    assert(progress(history.take(n)).asks() == Some(RequestView::CreateDir(group_path(id))));
    assert(directory_made(group_path(id), history[n].reply, before[n], after[n]));
    assert(!before[n].contains(group_path(id)));
}

/// A directory that is there already is never taken for a new group: making the group is
/// refused, with the words `create cgroup dir`, and the directories stay as they are.
pub proof fn existing_directories_are_refused(
    id: u64,
    reply: Reply,
    root: bool,
    new_id: u64,
    before: Set<Seq<u8>>,
    after: Set<Seq<u8>>,
)
    requires
        answers(RequestView::CreateDir(group_path(id)), reply),
        directory_made(group_path(id), reply, before, after),
        before.contains(group_path(id)),
    ensures
        (Creation::CreateDirectory { id }).asks() == Some(RequestView::CreateDir(group_path(id))),
        (Creation::CreateDirectory { id }).after(reply, root, new_id) == (Creation::Refused {
            refusal: Refusal::NotCreated,
        }),
        Refusal::NotCreated.explanation() == (FailureView {
            cause: None,
            contexts: seq![plain("create cgroup dir"@)],
        }),
        after == before,
{
}

proof fn begun_only_by_root(history: Seq<Happening>)
    requires
        orderly(history),
        !(progress(history) is FindMarker),
        !(progress(history) is Refused),
    ensures
        history.len() > 0,
        history[0].reply == Reply::Answer(true),
        history[0].root,
    decreases history.len(),
{
    let before = history.drop_last();
    if progress(before) is FindMarker {
        if before.len() > 0 {
            never_back_to_the_marker(before);
        }
        assert(history.last() == history[0]);
    } else {
        begun_only_by_root(before);
        assert(before[0] == history[0]);
    }
}

proof fn never_back_to_the_marker(history: Seq<Happening>)
    requires
        orderly(history),
        history.len() > 0,
    ensures
        !(progress(history) is FindMarker),
{
}

/// A list of controllers is accepted exactly if none has to be made active.
pub proof fn accepted_lists_lack_nothing(active: Seq<char>)
    ensures
        missing_in(active).first() is None <==> missing_in(active).list().len() == 0,
        missing_in(active).nothing() <==> missing_in(active).list().len() == 0,
{
}

/// The text asks for each controller that the list lacks, by its name with a plus sign, and
/// for no other.
pub open spec fn asks_for_what_lacks(text: Seq<char>, active: Seq<char>) -> bool {
    &&& !has_word(active, "memory"@) <==> has_word(text, seq!['+'] + "memory"@)
    &&& !has_word(active, "cpu"@) <==> has_word(text, seq!['+'] + "cpu"@)
    &&& !has_word(active, "pids"@) <==> has_word(text, seq!['+'] + "pids"@)
    &&& forall|word: Seq<char>| #[trigger]
        has_word(text, word) ==> word == seq!['+'] + "memory"@ || word == seq!['+'] + "cpu"@
            || word == seq!['+'] + "pids"@
}

/// The list names all controllers that a container needs.
pub open spec fn names_all(list: Seq<char>) -> bool {
    has_word(list, "memory"@) && has_word(list, "cpu"@) && has_word(list, "pids"@)
}

/// Where the controllers that are passed on to new groups lack one that a container needs, the
/// next thing that is asked of the system is to pass on the ones that lack, and nothing else.
/// Only where none lacks, the directory is made at once, by the number that was drawn.
pub proof fn lacking_controllers_are_enabled_first(reply: Reply, root: bool, new_id: u64)
    requires
        reply is Text,
    ensures
        ({
            let active = reply->Text_0@;
            let next = Creation::ReadActive.after(reply, root, new_id);
            &&& names_all(active) ==> next == (Creation::CreateDirectory { id: new_id })
            &&& !names_all(active) ==> {
                &&& next.asks() matches Some(RequestView::Write(path, text))
                &&& path == encode_utf8("/sys/fs/cgroup/cgroup.subtree_control"@)
                &&& asks_for_what_lacks(text, active)
            }
        }),
{
    let active = reply->Text_0@;
    if !names_all(active) {
        what_lacks_is_asked_for(active);
        assert(Creation::ReadActive.after(reply, root, new_id) == (Creation::EnableMissing {
            missing: missing_in(active),
        }));
    }
}

proof fn what_lacks_is_asked_for(active: Seq<char>)
    ensures
        asks_for_what_lacks(enabling(missing_in(active).list()), active),
{
    let list = missing_in(active).list();
    let text = enabling(list);
    reveal_strlit("memory");
    reveal_strlit("cpu");
    reveal_strlit("pids");
    reveal_strlit("+");
    assert("+"@ =~= seq!['+']);
    missing_controllers_are_no_words(active);
    if !has_word(active, "memory"@) {
        missing_controllers_are_asked_for(active, Controller::Memory);
    }
    if !has_word(active, "cpu"@) {
        missing_controllers_are_asked_for(active, Controller::Cpu);
    }
    if !has_word(active, "pids"@) {
        missing_controllers_are_asked_for(active, Controller::Pids);
    }
    assert(is_word("memory"@) && is_word("cpu"@) && is_word("pids"@));
    assert forall|i: int| 0 <= i < list.len() implies is_word(#[trigger] list[i]) by {}
    assert forall|word: Seq<char>| #[trigger] has_word(text, word) implies exists|i: int|
        0 <= i < list.len() && word == seq!['+'] + #[trigger] list[i] by {
        only_the_names_are_asked_for(list, word);
    }
    only_what_lacks_is_listed(active, "memory"@);
    only_what_lacks_is_listed(active, "cpu"@);
    only_what_lacks_is_listed(active, "pids"@);
}

proof fn plus_keeps_names_apart(a: Seq<char>, b: Seq<char>)
    ensures
        seq!['+'] + a == seq!['+'] + b ==> a == b,
{
    assert((seq!['+'] + a).skip(1) =~= a);
    assert((seq!['+'] + b).skip(1) =~= b);
}

proof fn only_what_lacks_is_listed(active: Seq<char>, name: Seq<char>)
    requires
        is_word("memory"@) && is_word("cpu"@) && is_word("pids"@),
    ensures
        has_word(enabling(missing_in(active).list()), seq!['+'] + name) ==> !has_word(active, name),
{
    let list = missing_in(active).list();
    if has_word(enabling(list), seq!['+'] + name) {
        only_the_names_are_asked_for(list, seq!['+'] + name);
        let i = choose|i: int|
            0 <= i < list.len() && seq!['+'] + name == seq!['+'] + #[trigger] list[i];
        plus_keeps_names_apart(name, list[i]);
        missing_controllers_are_no_words(active);
    }
}

/// A directory is made for a group only where all controllers were passed on before, or where
/// those that lacked were asked for and the system granted it. It is made by the number that
/// was drawn for it then.
pub proof fn directories_are_made_after_enabling(history: Seq<Happening>, id: u64)
    requires
        orderly(history),
        progress(history) == (Creation::CreateDirectory { id }),
    ensures
        history.len() >= 2,
        id == history.last().new_id,
        history.last().reply matches Reply::Text(active) ==> names_all(active@),
        !(history.last().reply is Text) ==> {
            let before = history.drop_last();
            &&& history.last().reply is Done
            &&& before.last().reply matches Reply::Text(active)
            &&& progress(before).asks() matches Some(RequestView::Write(path, text))
            &&& path == encode_utf8("/sys/fs/cgroup/cgroup.subtree_control"@)
            &&& asks_for_what_lacks(text, active@)
        },
{
    let before = history.drop_last();
    let last = history.last();
    assert(history.len() > 0);
    assert(progress(before) is ReadActive || progress(before) is EnableMissing);
    assert(before.len() > 0);
    assert(orderly(before));
    if progress(before) is ReadActive {
        lacking_controllers_are_enabled_first(last.reply, last.root, last.new_id);
    } else {
        let earlier = before.drop_last();
        let cause = before.last();
        assert(progress(earlier) is ReadActive);
        lacking_controllers_are_enabled_first(cause.reply, cause.root, cause.new_id);
    }
}

/// A group is named by its number: its directory is the one that the number spells out in
/// hexadecimal, below the directory of all groups.
pub proof fn groups_are_named_by_their_number(id: u64)
    ensures
        exists|digits: Seq<char>| #[trigger]
            spells(digits, id as nat, 16) && group_path(id) == joined(
                encode_utf8("/sys/fs/cgroup"@),
                encode_utf8("rust_container_"@ + digits),
            ),
{
    numbers_are_spelled(id as nat, 0);
    assert(spells(hexadecimal(id as nat), id as nat, 16));
}

/// A group is taken only if it has every controller that a container needs, and then by the
/// number that its directory was made by. Else the first one that it lacks is named.
pub proof fn groups_need_all_controllers(id: u64, reply: Reply, root: bool, new_id: u64)
    requires
        reply is Text,
    ensures
        ({
            let list = reply->Text_0@;
            let next = (Creation::ReadDelegated { id }).after(reply, root, new_id);
            let lacks = |controller: Controller|
                (Creation::Refused { refusal: Refusal::NotDelegated(controller) });
            &&& names_all(list) ==> next == (Creation::Created { id })
            &&& !has_word(list, "memory"@) ==> next == lacks(Controller::Memory)
            &&& has_word(list, "memory"@) && !has_word(list, "cpu"@) ==> next == lacks(
                Controller::Cpu,
            )
            &&& has_word(list, "memory"@) && has_word(list, "cpu"@) && !has_word(list, "pids"@)
                ==> next == lacks(Controller::Pids)
        }),
{
    missing_controllers_are_no_words(reply->Text_0@);
}

/// The steps that do not hang on a list: the marker and root come first, then each step leads
/// to the next one for the same group where it succeeded, and to its own refusal where it did
/// not.
pub proof fn steps_of_creation_lead_on(
    id: u64,
    missing: Missing,
    found: bool,
    root: bool,
    new_id: u64,
)
    ensures
        Creation::FindMarker.asks() == Some(
            RequestView::IsFile(
                joined(encode_utf8("/sys/fs/cgroup"@), encode_utf8("cgroup.controllers"@)),
            ),
        ),
        Creation::FindMarker.after(Reply::Answer(found), root, new_id) == if !found {
            Creation::Refused { refusal: Refusal::NotVersion2 }
        } else if !root {
            Creation::Refused { refusal: Refusal::NotRoot }
        } else {
            Creation::ReadActive
        },
        Creation::ReadActive.asks() == Some(
            RequestView::Read(encode_utf8("/sys/fs/cgroup/cgroup.subtree_control"@)),
        ),
        Creation::ReadActive.after(Reply::Failed, root, new_id) == (Creation::Refused {
            refusal: Refusal::ActiveUnreadable,
        }),
        (Creation::EnableMissing { missing }).after(Reply::Done, root, new_id) == (
        Creation::CreateDirectory { id: new_id }),
        (Creation::EnableMissing { missing }).after(Reply::Failed, root, new_id) == (
        Creation::Refused { refusal: Refusal::NotEnabled }),
        (Creation::CreateDirectory { id }).asks() == Some(RequestView::CreateDir(group_path(id))),
        (Creation::CreateDirectory { id }).after(Reply::Done, root, new_id) == (
        Creation::ReadDelegated { id }),
        (Creation::CreateDirectory { id }).after(Reply::Failed, root, new_id) == (
        Creation::Refused { refusal: Refusal::NotCreated }),
        (Creation::ReadDelegated { id }).asks() == Some(
            RequestView::Read(joined(group_path(id), encode_utf8("cgroup.controllers"@))),
        ),
        (Creation::ReadDelegated { id }).after(Reply::Failed, root, new_id) == (
        Creation::Refused { refusal: Refusal::DelegatedUnreadable }),
        (Creation::Created { id }).asks() is None,
{
}

/// Each refusal is reported by its own words, around the system's error where that is the
/// cause.
pub proof fn refusals_have_their_own_words(controller: Controller)
    ensures
        Refusal::NotVersion2.explanation() == (FailureView {
            cause: Some(seq![PieceView::Text("cgroupfs is not v2 (or not mounted)"@)]),
            contexts: seq![],
        }),
        Refusal::NotRoot.explanation() == (FailureView {
            cause: Some(seq![PieceView::Text("cgroup operations require root privileges"@)]),
            contexts: seq![],
        }),
        Refusal::ActiveUnreadable.explanation() == (FailureView { cause: None, contexts: seq![] }),
        Refusal::NotEnabled.explanation() == (FailureView {
            cause: None,
            contexts: seq![seq![PieceView::Text("failed to enable controllers"@)]],
        }),
        Refusal::NotCreated.explanation() == (FailureView {
            cause: None,
            contexts: seq![seq![PieceView::Text("create cgroup dir"@)]],
        }),
        Refusal::DelegatedUnreadable.explanation() == (FailureView {
            cause: None,
            contexts: seq![seq![PieceView::Text("read new cgroup.controllers"@)]],
        }),
        Refusal::NotDelegated(controller).explanation() == (FailureView {
            cause: Some(seq![PieceView::Text(not_delegated_text(controller))]),
            contexts: seq![],
        }),
{
}

} // verus!
