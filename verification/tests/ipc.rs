use container_runtime::ipc::{
    send_ready, signal, wait_ready, AlreadyUsed, ChildChannels, IpcError, IpcFault,
    ParentChannels, Pipes, Progress, ReadOutcome, StartupChannels, StartupUsed, WriteOutcome,
    READY,
};
use container_runtime::message::Piece;
use container_runtime::request::Channel;
use std::io::{pipe, PipeReader, PipeWriter, Read, Write};

fn read_signal(reader: &mut PipeReader, stage: &str) -> Result<Progress, IpcError> {
    let mut byte = [0u8; 1];
    let outcome = match reader.read(&mut byte) {
        Ok(count) => ReadOutcome::Read {
            count,
            byte: byte[0],
        },
        Err(_) => ReadOutcome::Failed,
    };
    wait_ready(outcome, stage)
}

fn write_signal(writer: &mut PipeWriter, stage: &str) -> Result<Progress, IpcError> {
    let outcome = match writer.write(&signal()) {
        Ok(count) => WriteOutcome::Wrote(count),
        Err(_) => WriteOutcome::Failed,
    };
    send_ready(outcome, stage)
}

#[test]
fn writer_closed_pipe_first_before_sending_something() {
    let (mut reader, writer) = pipe().unwrap();
    drop(writer);

    let error = read_signal(&mut reader, "test").unwrap_err();
    assert!(error.to_string().contains("closed test pipe"));
}

#[test]
fn wait_ready_receives_signal() {
    let (mut reader, mut writer) = pipe().unwrap();
    writer.write_all(&[1]).unwrap();
    drop(writer);

    assert_eq!(read_signal(&mut reader, "test").unwrap(), Progress::Ready);
}

#[test]
fn wait_ready_rejects_unexpected_signal() {
    let (mut reader, mut writer) = pipe().unwrap();
    writer.write_all(&[2]).unwrap();
    drop(writer);

    let error = read_signal(&mut reader, "test").unwrap_err();
    assert!(error.to_string().contains("unexpected test signal"));
}

#[test]
fn what_is_sent_is_received() {
    let (mut reader, mut writer) = pipe().unwrap();
    assert_eq!(signal(), [READY]);
    for _ in 0..3 {
        assert_eq!(write_signal(&mut writer, "test").unwrap(), Progress::Ready);
        assert_eq!(read_signal(&mut reader, "test").unwrap(), Progress::Ready);
    }
    assert_eq!(write_signal(&mut writer, "test").unwrap(), Progress::Ready);
    drop(writer);
    assert_eq!(read_signal(&mut reader, "test").unwrap(), Progress::Ready);
    let error = read_signal(&mut reader, "test").unwrap_err();
    assert_eq!(error.fault, IpcFault::Closed);
}

#[test]
fn a_wait_ends_when_the_other_process_is_gone() {
    let mut pipes = Pipes::new();
    let mut writers = Vec::new();
    for channel in [Channel::Cgroup, Channel::UserNamespace, Channel::Mapping] {
        let (reader, writer) = pipe().unwrap();
        writers.push(writer.try_clone().unwrap());
        pipes.put(channel, (End::Reader(reader), End::Writer(writer)));
    }
    let mut child = pipes.take().unwrap().into_child();
    drop(writers);
    match child.wait_for_cgroup().unwrap() {
        End::Reader(mut reader) => assert_eq!(
            read_signal(&mut reader, "cgroup").unwrap_err().to_string(),
            "peer closed cgroup pipe before signaling"
        ),
        End::Writer(_) => panic!("the setup process waits for the cgroup"),
    }
}

enum End {
    Reader(PipeReader),
    Writer(PipeWriter),
}

#[test]
fn the_pipes_are_handed_out_once() {
    let mut pipes = Pipes::new();
    assert!(pipes.take().is_err());
    pipes.put(Channel::Mapping, (5, 6));
    pipes.put(Channel::Cgroup, (1, 2));
    assert!(pipes.take().is_err());
    pipes.put(Channel::UserNamespace, (3, 4));
    let channels = pipes.take().unwrap();
    assert_eq!(channels.cgroup, (1, 2));
    assert_eq!(channels.user_namespace, (3, 4));
    assert_eq!(channels.mapping, (5, 6));
    match pipes.take() {
        Err(error) => {
            assert_eq!(error, StartupUsed);
            assert_eq!(error.to_string(), "startup channels already used");
        }
        Ok(_) => panic!("the pipes were handed out twice"),
    }
}

#[test]
fn interrupted_attempts_are_repeated() {
    assert_eq!(
        send_ready(WriteOutcome::Interrupted, "test").unwrap(),
        Progress::Again
    );
    assert_eq!(
        wait_ready(ReadOutcome::Interrupted, "test").unwrap(),
        Progress::Again
    );
}

#[test]
fn each_fault_has_its_own_text() {
    let sent = |outcome| send_ready(outcome, "mapping").unwrap_err().to_string();
    let read = |outcome| wait_ready(outcome, "cgroup").unwrap_err().to_string();
    assert_eq!(
        sent(WriteOutcome::Wrote(0)),
        "sent 0 bytes for mapping; expected one"
    );
    assert_eq!(
        sent(WriteOutcome::Wrote(12)),
        "sent 12 bytes for mapping; expected one"
    );
    assert_eq!(sent(WriteOutcome::Failed), "signal mapping ready");
    assert_eq!(
        read(ReadOutcome::Read { count: 1, byte: 0 }),
        "unexpected cgroup signal: 0"
    );
    assert_eq!(
        read(ReadOutcome::Read {
            count: 1,
            byte: 255
        }),
        "unexpected cgroup signal: 255"
    );
    assert_eq!(
        read(ReadOutcome::Read { count: 0, byte: 1 }),
        "peer closed cgroup pipe before signaling"
    );
    assert_eq!(
        read(ReadOutcome::Read { count: 2, byte: 1 }),
        "read 2 bytes for cgroup; expected one"
    );
    assert_eq!(read(ReadOutcome::Failed), "wait for cgroup");
}

#[test]
fn system_errors_are_explained_and_others_stand_alone() {
    let error = send_ready(WriteOutcome::Failed, "mapping").unwrap_err();
    assert_eq!(error.fault, IpcFault::SendFailed);
    let failure = error.explain();
    assert_eq!(failure.cause, None);
    assert_eq!(
        failure.contexts[0].pieces,
        [Piece::Text("signal mapping ready".to_string())]
    );
    let failure = wait_ready(ReadOutcome::Read { count: 0, byte: 0 }, "cgroup")
        .unwrap_err()
        .explain();
    assert!(failure.contexts.is_empty());
    assert_eq!(
        failure.cause.unwrap().pieces,
        [Piece::Text(
            "peer closed cgroup pipe before signaling".to_string()
        )]
    );
}

#[test]
fn the_ends_of_the_pipes_are_shared_out() {
    let channels = || StartupChannels::new((1, 2), (3, 4), (5, 6));
    let mut parent: ParentChannels<i32> = channels().into_parent();
    assert_eq!(parent.signal_cgroup_ready(), Ok(2));
    assert_eq!(parent.wait_for_user_namespace(), Ok(3));
    assert_eq!(parent.signal_mapping_ready(), Ok(6));
    let mut child: ChildChannels<i32> = channels().into_child();
    assert_eq!(child.wait_for_cgroup(), Ok(1));
    assert_eq!(child.signal_user_namespace_ready(), Ok(4));
    assert_eq!(child.wait_for_mapping(), Ok(5));
}

#[test]
fn each_end_is_handed_out_once() {
    let mut parent = ParentChannels::new("a", "b", "c");
    assert_eq!(parent.signal_mapping_ready(), Ok("c"));
    let error = parent.signal_mapping_ready().unwrap_err();
    assert_eq!(error, AlreadyUsed::Signaled(Channel::Mapping));
    assert_eq!(error.to_string(), "mapping already signaled");
    assert_eq!(parent.signal_cgroup_ready(), Ok("a"));
    assert_eq!(
        parent.signal_cgroup_ready().unwrap_err().to_string(),
        "cgroup already signaled"
    );
    assert_eq!(parent.wait_for_user_namespace(), Ok("b"));
    assert_eq!(
        parent.wait_for_user_namespace().unwrap_err().to_string(),
        "user namespace already checked"
    );

    let mut child = ChildChannels::new("a", "b", "c");
    assert_eq!(child.wait_for_cgroup(), Ok("a"));
    assert_eq!(
        child.wait_for_cgroup().unwrap_err().to_string(),
        "cgroup already checked"
    );
    assert_eq!(child.signal_user_namespace_ready(), Ok("b"));
    assert_eq!(
        child.signal_user_namespace_ready().unwrap_err().to_string(),
        "user namespace already signaled"
    );
    assert_eq!(child.wait_for_mapping(), Ok("c"));
    assert_eq!(
        child.wait_for_mapping().unwrap_err().to_string(),
        "mapping already checked"
    );
}
