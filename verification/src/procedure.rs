//! Doing a list of tasks one after the other, as far as they succeed.

use crate::request::{
    answers, grants, pick_task, system_error, task_views, Failure, FailureView, Reply, Request,
    RequestView, Task, TaskView,
};
use vstd::prelude::*;

verus! {

/// How far a list of tasks has come.
pub enum Place {
    /// The task that is asked for now.
    At(int),
    /// All tasks are done.
    Finished,
    /// The task that failed.
    Stopped(int),
    /// The question that was answered with no.
    Refused(int),
}

/// Where a list of so many tasks begins.
pub open spec fn start(count: int) -> Place {
    if count > 0 {
        Place::At(0)
    } else {
        Place::Finished
    }
}

/// How far a list of so many tasks has come after a reply to the task at a place: a task that
/// is granted leads on to the next or to the end, and one that fails, or a question that is
/// answered with no, stops the list.
pub open spec fn next_place(count: int, at: int, reply: Reply) -> Place {
    if reply is Failed {
        Place::Stopped(at)
    } else if reply == Reply::Answer(false) {
        Place::Refused(at)
    } else if at + 1 < count {
        Place::At(at + 1)
    } else {
        Place::Finished
    }
}

/// How far a list of so many tasks has come after all replies.
pub open spec fn progress(count: int, replies: Seq<Reply>) -> Place
    decreases replies.len(),
{
    if replies.len() == 0 {
        start(count)
    } else {
        match progress(count, replies.drop_last()) {
            Place::At(at) => next_place(count, at, replies.last()),
            place => place,
        }
    }
}

/// What a list of tasks asks the system for after all replies, while it goes on.
pub open spec fn asked(tasks: Seq<TaskView>, replies: Seq<Reply>) -> Option<RequestView> {
    match progress(tasks.len() as int, replies) {
        Place::At(at) => Some(tasks[at].request),
        _ => None,
    }
}

/// What a list of tasks comes to after all replies: nothing while it goes on, and then
/// success, the error of the task that failed, or `refusal` where a question was answered with
/// no.
pub open spec fn result(
    tasks: Seq<TaskView>,
    replies: Seq<Reply>,
    refusal: FailureView,
) -> Option<Result<(), FailureView>> {
    match progress(tasks.len() as int, replies) {
        Place::At(_) => None,
        Place::Finished => Some(Ok(())),
        Place::Stopped(at) => Some(Err(system_error(tasks[at].contexts))),
        Place::Refused(_) => Some(Err(refusal)),
    }
}

/// Tasks that are being done, one after the other.
#[derive(Debug, PartialEq, Eq)]
pub struct Procedure {
    pub tasks: Vec<Task>,
    /// The task that is asked for now.
    pub at: usize,
}

/// What follows a reply.
#[derive(Debug, PartialEq, Eq)]
pub enum Step {
    /// There is a next task.
    Next(Procedure),
    /// All tasks are done.
    Finished,
    /// A task failed, and those after it are left.
    Stopped(Failure),
    /// A question was answered with no, and the tasks after it are left.
    Refused,
}

impl Procedure {
    /// There is a task to ask for.
    pub open spec fn wf(self) -> bool {
        self.at < self.tasks.len()
    }

    /// The tasks, before any of them is done.
    pub fn new(tasks: Vec<Task>) -> (res: Procedure)
        requires
            tasks.len() > 0,
        ensures
            res.wf(),
            res.tasks == tasks,
            start(tasks.len() as int) == Place::At(res.at as int),
    {
        Procedure { tasks, at: 0 }
    }

    /// What the system is asked for now.
    pub fn request(&self) -> (res: &Request)
        requires
            self.wf(),
        ensures
            res@ == task_views(self.tasks@)[self.at as int].request,
    {
        &self.tasks[self.at].request
    }

    /// Goes on after the task is granted, or stops where it is not.
    pub fn step(self, reply: &Reply) -> (res: Step)
        requires
            self.wf(),
            answers(task_views(self.tasks@)[self.at as int].request, *reply),
        ensures
            match res {
                Step::Next(next) => {
                    &&& next.wf()
                    &&& next.tasks == self.tasks
                    &&& next_place(self.tasks.len() as int, self.at as int, *reply) == Place::At(
                        next.at as int,
                    )
                },
                Step::Finished => next_place(self.tasks.len() as int, self.at as int, *reply)
                    == Place::Finished,
                Step::Stopped(failure) => {
                    &&& next_place(self.tasks.len() as int, self.at as int, *reply)
                        == Place::Stopped(self.at as int)
                    &&& failure@ == system_error(
                        task_views(self.tasks@)[self.at as int].contexts,
                    )
                },
                Step::Refused => next_place(self.tasks.len() as int, self.at as int, *reply)
                    == Place::Refused(self.at as int),
            },
    {
        match reply {
            Reply::Failed => Step::Stopped(pick_task(self.tasks, self.at).failure()),
            Reply::Answer(false) => Step::Refused,
            _ => if self.at + 1 < self.tasks.len() {
                Step::Next(Procedure { tasks: self.tasks, at: self.at + 1 })
            } else {
                Step::Finished
            },
        }
    }
}

/// A task is asked for only after each task before it was granted.
pub proof fn tasks_follow_granted_ones(count: int, replies: Seq<Reply>, at: int)
    requires
        progress(count, replies) == Place::At(at),
    ensures
        0 <= at < count,
        replies.len() == at,
        forall|i: int| 0 <= i < at ==> grants(#[trigger] replies[i]),
    decreases replies.len(),
{
    if replies.len() > 0 {
        let before = replies.drop_last();
        tasks_follow_granted_ones(count, before, at - 1);
        assert forall|i: int| 0 <= i < at implies grants(#[trigger] replies[i]) by {
            if i < at - 1 {
                assert(before[i] == replies[i]);
            }
        }
    }
}

/// A list stops at the first task that is not granted. Each task before it was granted, no
/// task after it is asked for, and the list comes to the error of that task, or to the refusal
/// where it was a question, whatever is replied later.
pub proof fn ungranted_tasks_stop_the_list(
    tasks: Seq<TaskView>,
    replies: Seq<Reply>,
    at: int,
    later: Seq<Reply>,
    refusal: FailureView,
)
    requires
        0 <= at < tasks.len(),
        replies.len() == at + 1,
        !grants(replies[at]),
        forall|i: int| 0 <= i < at ==> grants(#[trigger] replies[i]),
    ensures
        asked(tasks, replies.take(at)) == Some(tasks[at].request),
        asked(tasks, replies + later) is None,
        result(tasks, replies + later, refusal) == Some(
            Err::<(), FailureView>(
                if replies[at] is Failed {
                    system_error(tasks[at].contexts)
                } else {
                    refusal
                },
            ),
        ),
    decreases later.len(),
{
    let count = tasks.len() as int;
    if later.len() == 0 {
        granted_tasks_lead_on(count, replies.take(at));
        assert(replies + later =~= replies);
        assert(replies.drop_last() =~= replies.take(at));
    } else {
        ungranted_tasks_stop_the_list(tasks, replies, at, later.drop_last(), refusal);
        assert((replies + later).drop_last() =~= replies + later.drop_last());
    }
}

/// A list of which each task is granted comes to success, and asks for nothing more.
pub proof fn granted_tasks_finish_the_list(
    tasks: Seq<TaskView>,
    replies: Seq<Reply>,
    refusal: FailureView,
)
    requires
        replies.len() == tasks.len(),
        forall|i: int| 0 <= i < replies.len() ==> grants(#[trigger] replies[i]),
    ensures
        asked(tasks, replies) is None,
        result(tasks, replies, refusal) == Some(Ok::<(), FailureView>(())),
{
    if replies.len() > 0 {
        let before = replies.drop_last();
        assert forall|i: int| 0 <= i < before.len() implies grants(#[trigger] before[i]) by {
            assert(before[i] == replies[i]);
        }
        granted_tasks_lead_on(tasks.len() as int, before);
    }
}

proof fn granted_tasks_lead_on(count: int, replies: Seq<Reply>)
    requires
        replies.len() < count,
        forall|i: int| 0 <= i < replies.len() ==> grants(#[trigger] replies[i]),
    ensures
        progress(count, replies) == Place::At(replies.len() as int),
    decreases replies.len(),
{
    if replies.len() > 0 {
        let before = replies.drop_last();
        assert forall|i: int| 0 <= i < before.len() implies grants(#[trigger] before[i]) by {
            assert(before[i] == replies[i]);
        }
        granted_tasks_lead_on(count, before);
    }
}

} // verus!
