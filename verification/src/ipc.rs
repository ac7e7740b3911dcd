//! The pipes that keep the runtime and the setup process in step.
//!
//! The runtime signals that the setup process has joined its cgroup, the setup process that it
//! has a user namespace of its own, and the runtime that the IDs of that are mapped.

use crate::message::{message_views, plain, Message, PieceView};
use crate::request::{Channel, Failure, FailureView};
use crate::text::{decimal, numbers_are_spelled, spells, write_decimal};
use vstd::prelude::*;

verus! {

/// The byte that is sent as a signal.
pub const READY: u8 = 1;

/// What is written to a pipe as a signal.
pub fn signal() -> (res: [u8; 1])
    ensures
        res@ == seq![READY],
{
    let res: [u8; 1] = [READY];
    assert(res@ =~= seq![READY]);
    res
}

/// How an attempt to write the signal to a pipe went.
#[derive(Clone, Copy, PartialEq, Eq, Structural, Debug)]
pub enum WriteOutcome {
    /// So many bytes were written.
    Wrote(usize),
    /// Something else came in between before a byte was written.
    Interrupted,
    /// It failed.
    Failed,
}

/// How an attempt to read one byte from a pipe went.
#[derive(Clone, Copy, PartialEq, Eq, Structural, Debug)]
pub enum ReadOutcome {
    /// So many bytes were read, the first of which is `byte`.
    Read { count: usize, byte: u8 },
    /// Something else came in between before a byte was read.
    Interrupted,
    /// It failed.
    Failed,
}

/// Whether a signal has passed.
#[derive(Clone, Copy, PartialEq, Eq, Structural, Debug)]
pub enum Progress {
    /// It has.
    Ready,
    /// It has to be tried again.
    Again,
}

/// What went wrong with a signal.
#[derive(Clone, Copy, PartialEq, Eq, Structural, Debug)]
pub enum IpcFault {
    WrongCountSent { count: usize },
    SendFailed,
    WrongByte { byte: u8 },
    Closed,
    WrongCountRead { count: usize },
    ReceiveFailed,
}

/// A signal that did not pass.
#[derive(Debug, PartialEq, Eq)]
pub struct IpcError {
    pub fault: IpcFault,
    pub stage: String,
}

impl IpcFault {
    /// What is said of the fault at a stage.
    pub open spec fn text(self, stage: Seq<char>) -> Seq<char> {
        match self {
            IpcFault::WrongCountSent { count } => "sent "@ + decimal(count as nat) + " bytes for "@
                + stage + "; expected one"@,
            IpcFault::SendFailed => "signal "@ + stage + " ready"@,
            IpcFault::WrongByte { byte } => "unexpected "@ + stage + " signal: "@ + decimal(
                byte as nat,
            ),
            IpcFault::Closed => "peer closed "@ + stage + " pipe before signaling"@,
            IpcFault::WrongCountRead { count } => "read "@ + decimal(count as nat) + " bytes for "@
                + stage + "; expected one"@,
            IpcFault::ReceiveFailed => "wait for "@ + stage,
        }
    }

    /// The fault is an error of the system.
    pub open spec fn of_system(self) -> bool {
        self is SendFailed || self is ReceiveFailed
    }

    /// What is said of the fault: the error itself, or what is put before the system's.
    pub open spec fn explanation(self, stage: Seq<char>) -> FailureView {
        if self.of_system() {
            FailureView { cause: None, contexts: seq![plain(self.text(stage))] }
        } else {
            FailureView { cause: Some(plain(self.text(stage))), contexts: seq![] }
        }
    }
}

fn three(first: &str, second: &str, third: &str) -> (res: String)
    ensures
        res@ == first@ + second@ + third@,
{
    let mut text: String = String::from_str(first);
    text.append(second);
    text.append(third);
    text
}

impl IpcError {
    /// What is said of the error.
    pub fn to_string(&self) -> (res: String)
        ensures
            res@ == self.fault.text(self.stage@),
    {
        let stage: &str = self.stage.as_str();
        match self.fault {
            IpcFault::WrongCountSent { count } => {
                let number: String = write_decimal(count as u64);
                let start: String = three("sent ", number.as_str(), " bytes for ");
                three(start.as_str(), stage, "; expected one")
            },
            IpcFault::SendFailed => three("signal ", stage, " ready"),
            IpcFault::WrongByte { byte } => {
                let number: String = write_decimal(byte as u64);
                let start: String = three("unexpected ", stage, " signal: ");
                start.concat(number.as_str())
            },
            IpcFault::Closed => three("peer closed ", stage, " pipe before signaling"),
            IpcFault::WrongCountRead { count } => {
                let number: String = write_decimal(count as u64);
                let start: String = three("read ", number.as_str(), " bytes for ");
                three(start.as_str(), stage, "; expected one")
            },
            IpcFault::ReceiveFailed => String::from_str("wait for ").concat(stage),
        }
    }

    /// What is said of the error: the error itself, or what is put before the system's.
    pub fn explain(&self) -> (res: Failure)
        ensures
            res@ == self.fault.explanation(self.stage@),
    {
        let message: Message = Message::text(self.to_string().as_str());
        match self.fault {
            IpcFault::SendFailed | IpcFault::ReceiveFailed => {
                let mut contexts: Vec<Message> = Vec::new();
                contexts.push(message);
                assert(message_views(contexts@) =~= seq![plain(self.fault.text(self.stage@))]);
                Failure::of_system(contexts)
            },
            _ => Failure::of_runtime(message),
        }
    }
}

/// What an attempt to send the signal comes to.
pub open spec fn sending(outcome: WriteOutcome) -> Result<Progress, IpcFault> {
    match outcome {
        WriteOutcome::Wrote(count) => if count == 1 {
            Ok(Progress::Ready)
        } else {
            Err(IpcFault::WrongCountSent { count })
        },
        WriteOutcome::Interrupted => Ok(Progress::Again),
        WriteOutcome::Failed => Err(IpcFault::SendFailed),
    }
}

/// What an attempt to receive the signal comes to.
pub open spec fn receiving(outcome: ReadOutcome) -> Result<Progress, IpcFault> {
    match outcome {
        ReadOutcome::Read { count, byte } => if count == 1 && byte == READY {
            Ok(Progress::Ready)
        } else if count == 1 {
            Err(IpcFault::WrongByte { byte })
        } else if count == 0 {
            Err(IpcFault::Closed)
        } else {
            Err(IpcFault::WrongCountRead { count })
        },
        ReadOutcome::Interrupted => Ok(Progress::Again),
        ReadOutcome::Failed => Err(IpcFault::ReceiveFailed),
    }
}

/// Decides, after an attempt to write the signal, whether it has been sent.
pub fn send_ready(outcome: WriteOutcome, stage: &str) -> (res: Result<Progress, IpcError>)
    ensures
        match res {
            Ok(progress) => sending(outcome) == Ok::<Progress, IpcFault>(progress),
            Err(error) => {
                &&& sending(outcome) == Err::<Progress, IpcFault>(error.fault)
                &&& error.stage@ == stage@
            },
        },
{
    let fault: IpcFault = match outcome {
        WriteOutcome::Wrote(count) => {
            if count == 1 {
                return Ok(Progress::Ready);
            }
            IpcFault::WrongCountSent { count }
        },
        WriteOutcome::Interrupted => {
            return Ok(Progress::Again);
        },
        WriteOutcome::Failed => IpcFault::SendFailed,
    };
    Err(IpcError { fault, stage: String::from_str(stage) })
}

/// Decides, after an attempt to read the signal, whether it has been received.
pub fn wait_ready(outcome: ReadOutcome, stage: &str) -> (res: Result<Progress, IpcError>)
    ensures
        match res {
            Ok(progress) => receiving(outcome) == Ok::<Progress, IpcFault>(progress),
            Err(error) => {
                &&& receiving(outcome) == Err::<Progress, IpcFault>(error.fault)
                &&& error.stage@ == stage@
            },
        },
{
    let fault: IpcFault = match outcome {
        ReadOutcome::Read { count, byte } => {
            if count == 1 && byte == READY {
                return Ok(Progress::Ready);
            }
            if count == 1 {
                IpcFault::WrongByte { byte }
            } else if count == 0 {
                IpcFault::Closed
            } else {
                IpcFault::WrongCountRead { count }
            }
        },
        ReadOutcome::Interrupted => {
            return Ok(Progress::Again);
        },
        ReadOutcome::Failed => IpcFault::ReceiveFailed,
    };
    Err(IpcError { fault, stage: String::from_str(stage) })
}

/// A signal is taken as received only if its one byte came, and a pipe that was closed before
/// is an error.
pub proof fn only_the_byte_is_a_signal(outcome: ReadOutcome)
    ensures
        receiving(outcome) == Ok::<Progress, IpcFault>(Progress::Ready) <==> outcome == (
        ReadOutcome::Read { count: 1, byte: READY }),
        outcome matches ReadOutcome::Read { count: 0, .. } ==> receiving(outcome) == Err::<
            Progress,
            IpcFault,
        >(IpcFault::Closed),
        receiving(outcome) == Ok::<Progress, IpcFault>(Progress::Again) <==> outcome
            is Interrupted,
{
}

impl Channel {
    /// What the channel is called.
    pub open spec fn called(self) -> Seq<char> {
        match self {
            Channel::Cgroup => "cgroup"@,
            Channel::UserNamespace => "user namespace"@,
            Channel::Mapping => "mapping"@,
        }
    }

    /// What the channel is called.
    pub fn stage(self) -> (res: &'static str)
        ensures
            res@ == self.called(),
    {
        match self {
            Channel::Cgroup => "cgroup",
            Channel::UserNamespace => "user namespace",
            Channel::Mapping => "mapping",
        }
    }
}

/// An end of a channel that has been used before.
#[derive(Clone, Copy, PartialEq, Eq, Structural, Debug)]
pub enum AlreadyUsed {
    /// The end that signals.
    Signaled(Channel),
    /// The end that waits.
    Checked(Channel),
}

impl AlreadyUsed {
    /// What is said of the error.
    pub open spec fn text(self) -> Seq<char> {
        match self {
            AlreadyUsed::Signaled(channel) => channel.called() + " already signaled"@,
            AlreadyUsed::Checked(channel) => channel.called() + " already checked"@,
        }
    }

    /// What is said of the error.
    pub fn to_string(&self) -> (res: String)
        ensures
            res@ == self.text(),
    {
        match self {
            AlreadyUsed::Signaled(channel) => String::from_str(channel.stage()).concat(
                " already signaled",
            ),
            AlreadyUsed::Checked(channel) => String::from_str(channel.stage()).concat(
                " already checked",
            ),
        }
    }
}

/// What taking an end comes to: the end, while it is there.
pub open spec fn taking<F>(end: Option<F>, error: AlreadyUsed) -> Result<F, AlreadyUsed> {
    match end {
        Some(fd) => Ok(fd),
        None => Err(error),
    }
}

/// The ends of the pipes that the runtime uses.
pub struct ParentChannels<F> {
    pub cgroup_writer: Option<F>,
    pub user_namespace_reader: Option<F>,
    pub mapping_writer: Option<F>,
}

impl<F> ParentChannels<F> {
    /// The ends, none of which has been used.
    pub fn new(cgroup_writer: F, user_namespace_reader: F, mapping_writer: F) -> (res: Self)
        ensures
            res.cgroup_writer == Some(cgroup_writer),
            res.user_namespace_reader == Some(user_namespace_reader),
            res.mapping_writer == Some(mapping_writer),
    {
        ParentChannels {
            cgroup_writer: Some(cgroup_writer),
            user_namespace_reader: Some(user_namespace_reader),
            mapping_writer: Some(mapping_writer),
        }
    }

    /// Hands out, once, the end that signals that the cgroup is joined.
    pub fn signal_cgroup_ready(&mut self) -> (res: Result<F, AlreadyUsed>)
        ensures
            res == taking(old(self).cgroup_writer, AlreadyUsed::Signaled(Channel::Cgroup)),
            final(self).cgroup_writer is None,
            final(self).user_namespace_reader == old(self).user_namespace_reader,
            final(self).mapping_writer == old(self).mapping_writer,
    {
        match self.cgroup_writer.take() {
            Some(fd) => Ok(fd),
            None => Err(AlreadyUsed::Signaled(Channel::Cgroup)),
        }
    }

    /// Hands out, once, the end that waits for the user namespace.
    pub fn wait_for_user_namespace(&mut self) -> (res: Result<F, AlreadyUsed>)
        ensures
            res == taking(
                old(self).user_namespace_reader,
                AlreadyUsed::Checked(Channel::UserNamespace),
            ),
            final(self).user_namespace_reader is None,
            final(self).cgroup_writer == old(self).cgroup_writer,
            final(self).mapping_writer == old(self).mapping_writer,
    {
        match self.user_namespace_reader.take() {
            Some(fd) => Ok(fd),
            None => Err(AlreadyUsed::Checked(Channel::UserNamespace)),
        }
    }

    /// Hands out, once, the end that signals that the IDs are mapped.
    pub fn signal_mapping_ready(&mut self) -> (res: Result<F, AlreadyUsed>)
        ensures
            res == taking(old(self).mapping_writer, AlreadyUsed::Signaled(Channel::Mapping)),
            final(self).mapping_writer is None,
            final(self).cgroup_writer == old(self).cgroup_writer,
            final(self).user_namespace_reader == old(self).user_namespace_reader,
    {
        match self.mapping_writer.take() {
            Some(fd) => Ok(fd),
            None => Err(AlreadyUsed::Signaled(Channel::Mapping)),
        }
    }
}

/// The ends of the pipes that the setup process uses.
pub struct ChildChannels<F> {
    pub cgroup_reader: Option<F>,
    pub user_namespace_writer: Option<F>,
    pub mapping_reader: Option<F>,
}

impl<F> ChildChannels<F> {
    /// The ends, none of which has been used.
    pub fn new(cgroup_reader: F, user_namespace_writer: F, mapping_reader: F) -> (res: Self)
        ensures
            res.cgroup_reader == Some(cgroup_reader),
            res.user_namespace_writer == Some(user_namespace_writer),
            res.mapping_reader == Some(mapping_reader),
    {
        ChildChannels {
            cgroup_reader: Some(cgroup_reader),
            user_namespace_writer: Some(user_namespace_writer),
            mapping_reader: Some(mapping_reader),
        }
    }

    /// Hands out, once, the end that waits until the cgroup is joined.
    pub fn wait_for_cgroup(&mut self) -> (res: Result<F, AlreadyUsed>)
        ensures
            res == taking(old(self).cgroup_reader, AlreadyUsed::Checked(Channel::Cgroup)),
            final(self).cgroup_reader is None,
            final(self).user_namespace_writer == old(self).user_namespace_writer,
            final(self).mapping_reader == old(self).mapping_reader,
    {
        match self.cgroup_reader.take() {
            Some(fd) => Ok(fd),
            None => Err(AlreadyUsed::Checked(Channel::Cgroup)),
        }
    }

    /// Hands out, once, the end that signals that the user namespace is there.
    pub fn signal_user_namespace_ready(&mut self) -> (res: Result<F, AlreadyUsed>)
        ensures
            res == taking(
                old(self).user_namespace_writer,
                AlreadyUsed::Signaled(Channel::UserNamespace),
            ),
            final(self).user_namespace_writer is None,
            final(self).cgroup_reader == old(self).cgroup_reader,
            final(self).mapping_reader == old(self).mapping_reader,
    {
        match self.user_namespace_writer.take() {
            Some(fd) => Ok(fd),
            None => Err(AlreadyUsed::Signaled(Channel::UserNamespace)),
        }
    }

    /// Hands out, once, the end that waits until the IDs are mapped.
    pub fn wait_for_mapping(&mut self) -> (res: Result<F, AlreadyUsed>)
        ensures
            res == taking(old(self).mapping_reader, AlreadyUsed::Checked(Channel::Mapping)),
            final(self).mapping_reader is None,
            final(self).cgroup_reader == old(self).cgroup_reader,
            final(self).user_namespace_writer == old(self).user_namespace_writer,
    {
        match self.mapping_reader.take() {
            Some(fd) => Ok(fd),
            None => Err(AlreadyUsed::Checked(Channel::Mapping)),
        }
    }
}

/// The pipes before the processes part, each with the end to read from and the end to write
/// to.
pub struct StartupChannels<F> {
    pub cgroup: (F, F),
    pub user_namespace: (F, F),
    pub mapping: (F, F),
}

impl<F> StartupChannels<F> {
    /// The three pipes.
    pub fn new(cgroup: (F, F), user_namespace: (F, F), mapping: (F, F)) -> (res: Self)
        ensures
            res == (StartupChannels { cgroup, user_namespace, mapping }),
    {
        StartupChannels { cgroup, user_namespace, mapping }
    }

    /// Keeps the ends of the runtime, and lets go of the others.
    pub fn into_parent(self) -> (res: ParentChannels<F>)
        ensures
            res.cgroup_writer == Some(self.cgroup.1),
            res.user_namespace_reader == Some(self.user_namespace.0),
            res.mapping_writer == Some(self.mapping.1),
    {
        let (_cgroup_reader, cgroup_writer) = self.cgroup;
        let (user_namespace_reader, _user_namespace_writer) = self.user_namespace;
        let (_mapping_reader, mapping_writer) = self.mapping;
        ParentChannels::new(cgroup_writer, user_namespace_reader, mapping_writer)
    }

    /// Keeps the ends of the setup process, and lets go of the others.
    pub fn into_child(self) -> (res: ChildChannels<F>)
        ensures
            res.cgroup_reader == Some(self.cgroup.0),
            res.user_namespace_writer == Some(self.user_namespace.1),
            res.mapping_reader == Some(self.mapping.0),
    {
        let (cgroup_reader, _cgroup_writer) = self.cgroup;
        let (_user_namespace_reader, user_namespace_writer) = self.user_namespace;
        let (mapping_reader, _mapping_writer) = self.mapping;
        ChildChannels::new(cgroup_reader, user_namespace_writer, mapping_reader)
    }
}

/// The pipes before the processes part, as they are made, until they are handed out.
pub struct Pipes<F> {
    pub cgroup: Option<(F, F)>,
    pub user_namespace: Option<(F, F)>,
    pub mapping: Option<(F, F)>,
}

/// Pipes that have been handed out, or that were never made.
#[derive(Clone, Copy, PartialEq, Eq, Structural, Debug)]
pub struct StartupUsed;

impl StartupUsed {
    /// What is said of the error.
    pub fn to_string(&self) -> (res: String)
        ensures
            res@ == "startup channels already used"@,
    {
        String::from_str("startup channels already used")
    }
}

impl<F> Pipes<F> {
    /// All three pipes are there.
    pub open spec fn complete(self) -> bool {
        self.cgroup is Some && self.user_namespace is Some && self.mapping is Some
    }

    /// None of the pipes is there.
    pub open spec fn empty(self) -> bool {
        self.cgroup is None && self.user_namespace is None && self.mapping is None
    }

    /// No pipes yet.
    pub fn new() -> (res: Self)
        ensures
            res.empty(),
    {
        Pipes { cgroup: None, user_namespace: None, mapping: None }
    }

    /// Keeps the pipe of a channel.
    pub fn put(&mut self, channel: Channel, pipe: (F, F))
        ensures
            final(self).cgroup == if channel is Cgroup {
                Some(pipe)
            } else {
                old(self).cgroup
            },
            final(self).user_namespace == if channel is UserNamespace {
                Some(pipe)
            } else {
                old(self).user_namespace
            },
            final(self).mapping == if channel is Mapping {
                Some(pipe)
            } else {
                old(self).mapping
            },
    {
        match channel {
            Channel::Cgroup => {
                self.cgroup = Some(pipe);
            },
            Channel::UserNamespace => {
                self.user_namespace = Some(pipe);
            },
            Channel::Mapping => {
                self.mapping = Some(pipe);
            },
        }
    }

    /// Hands the pipes out, once.
    pub fn take(&mut self) -> (res: Result<StartupChannels<F>, StartupUsed>)
        ensures
            hands_out(*old(self), *final(self), res is Ok),
            match res {
                Ok(channels) => {
                    &&& old(self).cgroup == Some(channels.cgroup)
                    &&& old(self).user_namespace == Some(channels.user_namespace)
                    &&& old(self).mapping == Some(channels.mapping)
                },
                Err(error) => error == StartupUsed,
            },
    {
        if self.cgroup.is_none() || self.user_namespace.is_none() || self.mapping.is_none() {
            return Err(StartupUsed);
        }
        let cgroup: (F, F) = self.cgroup.take().unwrap();
        let user_namespace: (F, F) = self.user_namespace.take().unwrap();
        let mapping: (F, F) = self.mapping.take().unwrap();
        Ok(StartupChannels::new(cgroup, user_namespace, mapping))
    }
}

/// The pipes are handed out exactly if all are there, and then none is left.
pub open spec fn hands_out<F>(before: Pipes<F>, after: Pipes<F>, taken: bool) -> bool {
    if before.complete() {
        taken && after.empty()
    } else {
        !taken && after == before
    }
}

/// Pipes that were handed out are not handed out again.
pub proof fn pipes_are_handed_out_once<F>(
    first: Pipes<F>,
    second: Pipes<F>,
    third: Pipes<F>,
    taken_again: bool,
)
    requires
        hands_out(first, second, true),
        hands_out(second, third, taken_again),
    ensures
        !taken_again,
{
}

/// A pipe, as its readers see it.
pub struct Flow {
    /// What has been written and not yet read.
    pub bytes: Seq<u8>,
    /// Someone still has an end to write to.
    pub writable: bool,
}

/// An attempt to write the signal can go like this, and leave the pipe like that.
pub open spec fn writing(before: Flow, outcome: WriteOutcome, after: Flow) -> bool {
    &&& after.writable == before.writable
    &&& match outcome {
        WriteOutcome::Wrote(count) => count <= 1 && after.bytes == before.bytes + seq![READY].take(
            count as int,
        ),
        _ => after.bytes == before.bytes,
    }
}

/// An attempt to read one byte can go like this, and leave the pipe like that. Nothing is read
/// only where there is nothing to read and nobody can write any more.
pub open spec fn reading(before: Flow, outcome: ReadOutcome, after: Flow) -> bool {
    &&& after.writable == before.writable
    &&& match outcome {
        ReadOutcome::Read { count, byte } => if count == 0 {
            &&& before.bytes.len() == 0
            &&& !before.writable
            &&& after.bytes == before.bytes
        } else {
            &&& count == 1
            &&& before.bytes.len() > 0
            &&& byte == before.bytes[0]
            &&& after.bytes == before.bytes.skip(1)
        },
        _ => after.bytes == before.bytes,
    }
}

/// The attempts send the signal: each but the last is interrupted, and the last writes it. The
/// pipe goes through the states `flows`.
pub open spec fn sends(flows: Seq<Flow>, outcomes: Seq<WriteOutcome>) -> bool {
    &&& outcomes.len() > 0
    &&& flows.len() == outcomes.len() + 1
    &&& forall|i: int|
        0 <= i < outcomes.len() ==> writing(flows[i], #[trigger] outcomes[i], flows[i + 1])
    &&& forall|i: int|
        0 <= i < outcomes.len() - 1 ==> sending(#[trigger] outcomes[i]) == Ok::<
            Progress,
            IpcFault,
        >(Progress::Again)
    &&& sending(outcomes.last()) == Ok::<Progress, IpcFault>(Progress::Ready)
}

/// The attempts wait for the signal: each but the last is interrupted, and the last reads.
/// The pipe goes through the states `flows`.
pub open spec fn waits(flows: Seq<Flow>, outcomes: Seq<ReadOutcome>) -> bool {
    &&& outcomes.len() > 0
    &&& flows.len() == outcomes.len() + 1
    &&& forall|i: int|
        0 <= i < outcomes.len() ==> reading(flows[i], #[trigger] outcomes[i], flows[i + 1])
    &&& forall|i: int|
        0 <= i < outcomes.len() - 1 ==> receiving(#[trigger] outcomes[i]) == Ok::<
            Progress,
            IpcFault,
        >(Progress::Again)
    &&& outcomes.last() is Read
}

/// Sending puts one byte into the pipe, which is the signal, however often it was interrupted.
pub proof fn sending_writes_the_signal(flows: Seq<Flow>, outcomes: Seq<WriteOutcome>)
    requires
        sends(flows, outcomes),
    ensures
        flows.last().bytes == flows[0].bytes.push(READY),
        flows.last().writable == flows[0].writable,
{
    let last = outcomes.len() - 1;
    interrupted_writes_change_nothing(flows, outcomes, last);
    assert(writing(flows[last], outcomes[last], flows[last + 1]));
    assert(seq![READY].take(1) =~= seq![READY]);
    assert(flows[0].bytes + seq![READY] =~= flows[0].bytes.push(READY));
}

proof fn interrupted_writes_change_nothing(
    flows: Seq<Flow>,
    outcomes: Seq<WriteOutcome>,
    now: int,
)
    requires
        sends(flows, outcomes),
        0 <= now < outcomes.len(),
    ensures
        flows[now] == flows[0],
    decreases now,
{
    if now > 0 {
        interrupted_writes_change_nothing(flows, outcomes, now - 1);
        assert(writing(flows[now - 1], outcomes[now - 1], flows[now - 1 + 1]));
        assert(sending(outcomes[now - 1]) == Ok::<Progress, IpcFault>(Progress::Again));
    }
}

proof fn interrupted_reads_change_nothing(flows: Seq<Flow>, outcomes: Seq<ReadOutcome>, now: int)
    requires
        waits(flows, outcomes),
        0 <= now < outcomes.len(),
    ensures
        flows[now] == flows[0],
    decreases now,
{
    if now > 0 {
        interrupted_reads_change_nothing(flows, outcomes, now - 1);
        assert(reading(flows[now - 1], outcomes[now - 1], flows[now - 1 + 1]));
        assert(receiving(outcomes[now - 1]) == Ok::<Progress, IpcFault>(Progress::Again));
    }
}

/// Waiting on a pipe that holds the signal alone receives it, and leaves the pipe empty.
pub proof fn signals_are_received(flows: Seq<Flow>, outcomes: Seq<ReadOutcome>)
    requires
        waits(flows, outcomes),
        flows[0].bytes == seq![READY],
    ensures
        receiving(outcomes.last()) == Ok::<Progress, IpcFault>(Progress::Ready),
        flows.last().bytes.len() == 0,
{
    let last = outcomes.len() - 1;
    interrupted_reads_change_nothing(flows, outcomes, last);
    assert(reading(flows[last], outcomes[last], flows[last + 1]));
}

/// What is sent is received: waiting on a pipe that was empty before the signal was sent finds
/// the signal, however often both were interrupted, and leaves the pipe empty again.
pub proof fn what_is_sent_is_received(
    written: Seq<Flow>,
    writes: Seq<WriteOutcome>,
    read: Seq<Flow>,
    reads: Seq<ReadOutcome>,
)
    requires
        sends(written, writes),
        written[0].bytes.len() == 0,
        waits(read, reads),
        read[0].bytes == written.last().bytes,
    ensures
        receiving(reads.last()) == Ok::<Progress, IpcFault>(Progress::Ready),
        read.last().bytes.len() == 0,
{
    sending_writes_the_signal(written, writes);
    assert(read[0].bytes =~= seq![READY]);
    signals_are_received(read, reads);
}

/// One signal satisfies one wait: no wait on a pipe that is empty receives a signal. Where
/// nobody can write any more, such a wait ends with the error that the pipe was closed; else
/// there is nothing for it to read.
pub proof fn empty_pipes_hold_no_signal(flows: Seq<Flow>, outcomes: Seq<ReadOutcome>)
    requires
        waits(flows, outcomes),
        flows[0].bytes.len() == 0,
    ensures
        !flows[0].writable,
        receiving(outcomes.last()) == Err::<Progress, IpcFault>(IpcFault::Closed),
{
    let last = outcomes.len() - 1;
    interrupted_reads_change_nothing(flows, outcomes, last);
    assert(reading(flows[last], outcomes[last], flows[last + 1]));
}

/// A signal has passed exactly if one byte was written, or if one byte was read and it is the
/// signal. It is tried again exactly after an interruption. All else is an error, which keeps
/// what came instead.
pub proof fn one_byte_is_the_whole_signal(count: usize, byte: u8)
    ensures
        sending(WriteOutcome::Wrote(count)) == if count == 1 {
            Ok::<Progress, IpcFault>(Progress::Ready)
        } else {
            Err::<Progress, IpcFault>(IpcFault::WrongCountSent { count })
        },
        sending(WriteOutcome::Interrupted) == Ok::<Progress, IpcFault>(Progress::Again),
        sending(WriteOutcome::Failed) == Err::<Progress, IpcFault>(IpcFault::SendFailed),
        count > 1 ==> receiving(ReadOutcome::Read { count, byte }) == Err::<Progress, IpcFault>(
            IpcFault::WrongCountRead { count },
        ),
        receiving(ReadOutcome::Read { count: 0, byte }) == Err::<Progress, IpcFault>(
            IpcFault::Closed,
        ),
        receiving(ReadOutcome::Read { count: 1, byte }) == if byte == 1 {
            Ok::<Progress, IpcFault>(Progress::Ready)
        } else {
            Err::<Progress, IpcFault>(IpcFault::WrongByte { byte })
        },
        receiving(ReadOutcome::Interrupted) == Ok::<Progress, IpcFault>(Progress::Again),
        receiving(ReadOutcome::Failed) == Err::<Progress, IpcFault>(IpcFault::ReceiveFailed),
        READY == 1,
{
}

/// What is said of a fault holds the stage, and spells out the number that it is about.
pub proof fn faults_are_spelled_out(count: usize, byte: u8, stage: Seq<char>)
    ensures
        exists|digits: Seq<char>|
            {
                &&& #[trigger] spells(digits, count as nat, 10)
                &&& (IpcFault::WrongCountSent { count }).text(stage) == "sent "@ + digits
                    + " bytes for "@ + stage + "; expected one"@
                &&& (IpcFault::WrongCountRead { count }).text(stage) == "read "@ + digits
                    + " bytes for "@ + stage + "; expected one"@
            },
        exists|digits: Seq<char>|
            {
                &&& #[trigger] spells(digits, byte as nat, 10)
                &&& (IpcFault::WrongByte { byte }).text(stage) == "unexpected "@ + stage
                    + " signal: "@ + digits
            },
        IpcFault::Closed.text(stage) == "peer closed "@ + stage + " pipe before signaling"@,
        IpcFault::SendFailed.text(stage) == "signal "@ + stage + " ready"@,
        IpcFault::ReceiveFailed.text(stage) == "wait for "@ + stage,
{
    numbers_are_spelled(count as nat, 0);
    numbers_are_spelled(byte as nat, 0);
    assert(spells(decimal(count as nat), count as nat, 10));
    assert(spells(decimal(byte as nat), byte as nat, 10));
}

/// A fault of the system is put before the system's error, and any other is the error itself.
pub proof fn faults_explain_or_are_the_error(fault: IpcFault, stage: Seq<char>)
    ensures
        fault is SendFailed || fault is ReceiveFailed ==> {
            &&& fault.explanation(stage).cause is None
            &&& fault.explanation(stage).contexts == seq![seq![PieceView::Text(fault.text(stage))]]
        },
        !(fault is SendFailed) && !(fault is ReceiveFailed) ==> {
            &&& fault.explanation(stage).cause == Some(seq![PieceView::Text(fault.text(stage))])
            &&& fault.explanation(stage).contexts.len() == 0
        },
{
}

/// An end that is there is handed over as it is, and only one that is gone is an error.
pub proof fn ends_are_handed_over<F>(end: F, error: AlreadyUsed)
    ensures
        taking(Some(end), error) == Ok::<F, AlreadyUsed>(end),
        taking(None::<F>, error) == Err::<F, AlreadyUsed>(error),
{
}

} // verus!
