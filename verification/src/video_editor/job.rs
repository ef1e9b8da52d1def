//! Carrying out a plan, one step at a time.
//!
//! The library starts no process and touches no file. A [`Job`] tells the
//! host what to do next, and the host tells the job how the last step went.
//! The job does the tasks of its plan in order, stops at the first that
//! fails, has the intermediate files removed in either case, and ends with
//! the first failure or with success. Nothing is tried twice.

use vstd::prelude::*;
use crate::text::{prefixed, push_text, texts};
use crate::video_editor::concat::{
    fast_clip_task,
    fast_plan,
    ConcatPlan,
    PlanView,
    Task,
    TaskView,
};
use crate::video_editor::ffmpeg::{
    manifest_path,
    spawn_failure_message,
    spawn_failure_text,
    temp_clip_path,
    tool_failure_message,
    tool_failure_text,
    tool_missing_message,
    tool_missing_text,
};
use crate::video_editor::types::TimelineClip;

verus! {

/// What the host reports of the step it was given last.
#[derive(Debug, Clone, PartialEq, Eq)]
pub enum Event {
    /// Nothing was done yet: the job is being started.
    Start,
    /// The step was done.
    Done,
    /// The media tool could not be found.
    ToolMissing(String),
    /// The media tool could not be started.
    SpawnFailed(String),
    /// The media tool exited with a failure; this is what it wrote to its
    /// error stream.
    ToolFailed(String),
    /// A directory or a file could not be written.
    IoFailed(String),
}

/// An [`Event`] as text.
pub enum EventView {
    Start,
    Done,
    ToolMissing(Seq<char>),
    SpawnFailed(Seq<char>),
    ToolFailed(Seq<char>),
    IoFailed(Seq<char>),
}

impl View for Event {
    type V = EventView;

    open spec fn view(&self) -> EventView {
        match self {
            Event::Start => EventView::Start,
            Event::Done => EventView::Done,
            Event::ToolMissing(e) => EventView::ToolMissing(e@),
            Event::SpawnFailed(e) => EventView::SpawnFailed(e@),
            Event::ToolFailed(e) => EventView::ToolFailed(e@),
            Event::IoFailed(e) => EventView::IoFailed(e@),
        }
    }
}

/// What the host is to do next.
#[derive(Debug, PartialEq, Eq)]
pub enum Step {
    /// Perform the task and report how it went.
    Perform(Task),
    /// Remove the file `path` if it is there. Whether that works is of no
    /// account: the host may note a failure, the job does not hear of it.
    Remove { path: String },
    /// Nothing is left to do; this is how the job ended.
    Finish { result: Result<(), String> },
}

/// A [`Step`] as text; a job that ends without a failure has succeeded.
pub enum StepView {
    Perform(TaskView),
    Remove { path: Seq<char> },
    Finish { failure: Option<Seq<char>> },
}

impl View for Step {
    type V = StepView;

    open spec fn view(&self) -> StepView {
        match self {
            Step::Perform(task) => StepView::Perform(task@),
            Step::Remove { path } => StepView::Remove { path: path@ },
            Step::Finish { result } => StepView::Finish {
                failure: match result {
                    Ok(_) => None,
                    Err(e) => Some(e@),
                },
            },
        }
    }
}

/// Where a job stands.
#[derive(Debug, Clone, Copy, PartialEq, Eq, Structural)]
pub enum Phase {
    /// Tasks are being done.
    Working,
    /// The tasks are over; files are being removed.
    Cleaning,
    /// The job has ended.
    Finished,
}

/// The state of a job.
pub struct JobView {
    pub plan: PlanView,
    /// How many tasks were handed to the host.
    pub issued: nat,
    /// How many of the plan's `cleanup` files were handed out for removal.
    pub removed: nat,
    /// How many of the plan's `cleanup_on_failure` files were.
    pub removed_on_failure: nat,
    /// The first failure, if there was one.
    pub failure: Option<Seq<char>>,
    pub phase: Phase,
}

/// Whether `event` reports a failure.
pub open spec fn is_failure(event: EventView) -> bool {
    !(event is Start || event is Done)
}

/// What the host said of a failure.
pub open spec fn failure_detail(event: EventView) -> Seq<char> {
    match event {
        EventView::Start => Seq::<char>::empty(),
        EventView::Done => Seq::<char>::empty(),
        EventView::ToolMissing(e) => e,
        EventView::SpawnFailed(e) => e,
        EventView::ToolFailed(e) => e,
        EventView::IoFailed(e) => e,
    }
}

/// The message for `task` having failed as `event` says. A failed run names
/// its operation and carries what the tool or the host said, word for word.
pub open spec fn failure_text(task: TaskView, event: EventView) -> Seq<char> {
    match task {
        TaskView::CreateDir { .. } => "Failed to create temp directory: "@ + failure_detail(event),
        TaskView::WriteFile { .. } => "Failed to write concat list: "@ + failure_detail(event),
        TaskView::Run { op, .. } => match event {
            EventView::ToolMissing(e) => tool_missing_text(e),
            EventView::ToolFailed(e) => tool_failure_text(op, e),
            _ => spawn_failure_text(op, failure_detail(event)),
        },
    }
}

/// A job that has not started on `plan`.
pub open spec fn fresh_job(plan: PlanView) -> JobView {
    JobView {
        plan,
        issued: 0,
        removed: 0,
        removed_on_failure: 0,
        failure: None,
        phase: Phase::Working,
    }
}

/// The next step of a job whose tasks are over: the next file to remove, the
/// files for the case of failure only after a failure, and the end when none
/// is left.
pub open spec fn clean_step(s: JobView) -> (JobView, StepView) {
    if s.removed < s.plan.cleanup.len() {
        (
            JobView { removed: s.removed + 1, phase: Phase::Cleaning, ..s },
            StepView::Remove { path: s.plan.cleanup[s.removed as int] },
        )
    } else if s.failure is Some && s.removed_on_failure < s.plan.cleanup_on_failure.len() {
        (
            JobView { removed_on_failure: s.removed_on_failure + 1, phase: Phase::Cleaning, ..s },
            StepView::Remove { path: s.plan.cleanup_on_failure[s.removed_on_failure as int] },
        )
    } else {
        (JobView { phase: Phase::Finished, ..s }, StepView::Finish { failure: s.failure })
    }
}

/// The state after `event`, and the step the host is given.
///
/// While tasks are being done, a failure of the task handed out last ends
/// the work and is kept as the job's failure; otherwise the next task is
/// handed out, and when none is left the removal of files begins. Once it
/// has begun, what the host reports changes nothing.
pub open spec fn job_step(s: JobView, event: EventView) -> (JobView, StepView) {
    if s.phase == Phase::Working {
        if s.issued > 0 && is_failure(event) {
            clean_step(
                JobView { failure: Some(failure_text(s.plan.tasks[s.issued - 1], event)), ..s },
            )
        } else if s.issued < s.plan.tasks.len() {
            (JobView { issued: s.issued + 1, ..s }, StepView::Perform(s.plan.tasks[s.issued as int]))
        } else {
            clean_step(s)
        }
    } else {
        clean_step(s)
    }
}

/// What holds of every state a job can reach.
pub open spec fn job_inv(s: JobView) -> bool {
    &&& s.issued <= s.plan.tasks.len()
    &&& s.removed <= s.plan.cleanup.len()
    &&& s.removed_on_failure <= s.plan.cleanup_on_failure.len()
    &&& s.phase == Phase::Working ==> s.failure is None && s.removed == 0 && s.removed_on_failure
        == 0
    &&& s.phase != Phase::Working && s.failure is None ==> s.issued == s.plan.tasks.len()
        && s.removed_on_failure == 0
    &&& s.removed_on_failure > 0 ==> s.removed == s.plan.cleanup.len()
    &&& s.phase == Phase::Finished ==> s.removed == s.plan.cleanup.len() && (s.failure is Some
        ==> s.removed_on_failure == s.plan.cleanup_on_failure.len())
}

/// What is left of a job: the tasks not handed out, the files not handed out
/// for removal, and the end itself.
pub open spec fn steps_left(s: JobView) -> int {
    (s.plan.tasks.len() - s.issued) + (s.plan.cleanup.len() - s.removed) + (
    s.plan.cleanup_on_failure.len() - s.removed_on_failure) + (if s.phase == Phase::Finished {
        0int
    } else {
        1int
    })
}

/// A plan being carried out.
pub struct Job {
    plan: ConcatPlan,
    issued: usize,
    removed: usize,
    removed_on_failure: usize,
    failure: Option<String>,
    phase: Phase,
}

impl View for Job {
    type V = JobView;

    closed spec fn view(&self) -> JobView {
        JobView {
            plan: self.plan@,
            issued: self.issued as nat,
            removed: self.removed as nat,
            removed_on_failure: self.removed_on_failure as nat,
            failure: match self.failure {
                Some(e) => Some(e@),
                None => None,
            },
            phase: self.phase,
        }
    }
}

/// A copy of `v`.
fn clone_texts(v: &Vec<String>) -> (copy: Vec<String>)
    ensures
        texts(copy@) == texts(v@),
{
    let mut copy: Vec<String> = Vec::new();
    let mut i: usize = 0;
    while i < v.len()
        invariant
            i <= v.len(),
            texts(copy@) == texts(v@).take(i as int),
        decreases v.len() - i,
    {
        push_text(&mut copy, v[i].clone());
        assert(texts(copy@) =~= texts(v@).take(i + 1));
        i = i + 1;
    }
    assert(texts(v@).take(v.len() as int) =~= texts(v@));
    copy
}

/// A copy of `task`.
fn clone_task(task: &Task) -> (copy: Task)
    ensures
        copy@ == task@,
{
    match task {
        Task::CreateDir { path } => Task::CreateDir { path: path.clone() },
        Task::Run { args, op } => Task::Run { args: clone_texts(args), op: op.clone() },
        Task::WriteFile { path, contents } => Task::WriteFile {
            path: path.clone(),
            contents: contents.clone(),
        },
    }
}

impl Event {
    /// Whether the event reports a failure, and what the host said of it.
    pub fn failure(&self) -> (detail: Option<&str>)
        ensures
            detail is Some <==> is_failure(self@),
            detail matches Some(d) ==> d@ == failure_detail(self@),
    {
        match self {
            Event::Start => None,
            Event::Done => None,
            Event::ToolMissing(e) => Some(e.as_str()),
            Event::SpawnFailed(e) => Some(e.as_str()),
            Event::ToolFailed(e) => Some(e.as_str()),
            Event::IoFailed(e) => Some(e.as_str()),
        }
    }
}

/// Builds [`failure_text`] for an event that reports a failure with `detail`.
fn build_failure_text(task: &Task, event: &Event, detail: &str) -> (message: String)
    requires
        is_failure(event@),
        detail@ == failure_detail(event@),
    ensures
        message@ == failure_text(task@, event@),
{
    match task {
        Task::CreateDir { .. } => prefixed("Failed to create temp directory: ", detail),
        Task::WriteFile { .. } => prefixed("Failed to write concat list: ", detail),
        Task::Run { op, .. } => match event {
            Event::ToolMissing(_) => tool_missing_message(detail),
            Event::ToolFailed(_) => tool_failure_message(op.as_str(), detail),
            _ => spawn_failure_message(op.as_str(), detail),
        },
    }
}

impl Job {
    #[verifier::type_invariant]
    spec fn within_plan(self) -> bool {
        &&& self.issued <= self.plan.tasks@.len()
        &&& self.removed <= self.plan.cleanup@.len()
        &&& self.removed_on_failure <= self.plan.cleanup_on_failure@.len()
    }

    /// A job that has not started on `plan`.
    pub fn new(plan: ConcatPlan) -> (job: Job)
        ensures
            job@ == fresh_job(plan@),
            job_inv(job@),
    {
        Job {
            plan,
            issued: 0,
            removed: 0,
            removed_on_failure: 0,
            failure: None,
            phase: Phase::Working,
        }
    }

    /// The file that the job produces.
    pub fn output(&self) -> (path: &str)
        ensures
            path@ == self@.plan.output,
    {
        self.plan.output.as_str()
    }

    /// Whether the job has ended.
    pub fn is_finished(&self) -> (finished: bool)
        ensures
            finished == (self@.phase == Phase::Finished),
    {
        self.phase == Phase::Finished
    }

    /// Takes what the host reports of the last step and gives the next one:
    /// see [`job_step`].
    pub fn step(&mut self, event: &Event) -> (step: Step)
        ensures
            final(self)@ == job_step(old(self)@, event@).0,
            step@ == job_step(old(self)@, event@).1,
            job_inv(old(self)@) ==> job_inv(final(self)@),
    {
        proof {
            use_type_invariant(&*self);
            lemma_step_keeps_invariant(self@, event@);
        }
        if self.phase == Phase::Working {
            let failed = event.failure();
            if self.issued > 0 && failed.is_some() {
                let message = build_failure_text(
                    &self.plan.tasks[self.issued - 1],
                    event,
                    failed.unwrap(),
                );
                self.failure = Some(message);
            } else if self.issued < self.plan.tasks.len() {
                let task = clone_task(&self.plan.tasks[self.issued]);
                self.issued = self.issued + 1;
                return Step::Perform(task);
            }
        }
        if self.removed < self.plan.cleanup.len() {
            let path = self.plan.cleanup[self.removed].clone();
            self.removed = self.removed + 1;
            self.phase = Phase::Cleaning;
            return Step::Remove { path };
        }
        if self.failure.is_some() && self.removed_on_failure < self.plan.cleanup_on_failure.len() {
            let path = self.plan.cleanup_on_failure[self.removed_on_failure].clone();
            self.removed_on_failure = self.removed_on_failure + 1;
            self.phase = Phase::Cleaning;
            return Step::Remove { path };
        }
        self.phase = Phase::Finished;
        let result = match &self.failure {
            Some(message) => Err(message.clone()),
            None => Ok(()),
        };
        Step::Finish { result }
    }
}

/// A fresh job meets the invariant, and every step keeps it.
pub proof fn lemma_step_keeps_invariant(s: JobView, event: EventView)
    ensures
        job_inv(fresh_job(s.plan)),
        job_inv(s) ==> job_inv(job_step(s, event).0),
        job_step(s, event).0.plan == s.plan,
{
}

/// Tasks are handed out in the order of the plan, one at a time, and none
/// after a failure: a step that hands out a task hands out the first one not
/// yet handed out, and the job has no failure then.
pub proof fn lemma_tasks_in_order(s: JobView, event: EventView)
    requires
        job_inv(s),
        job_step(s, event).1 is Perform,
    ensures
        s.issued < s.plan.tasks.len(),
        job_step(s, event).1 == StepView::Perform(s.plan.tasks[s.issued as int]),
        job_step(s, event).0.issued == s.issued + 1,
        job_step(s, event).0.failure is None,
        s.issued > 0 ==> !is_failure(event),
{
}

/// The first failure ends the work and is what the job ends with: when the
/// task handed out last has failed, no further task is handed out, now or
/// later, and the failure kept is the message for that task and that event.
pub proof fn lemma_failure_stops_work(s: JobView, event: EventView, later: EventView)
    requires
        job_inv(s),
        s.phase == Phase::Working,
        s.issued > 0,
        is_failure(event),
    ensures
        !(job_step(s, event).1 is Perform),
        job_step(s, event).0.failure == Some(failure_text(s.plan.tasks[s.issued - 1], event)),
        !(job_step(job_step(s, event).0, later).1 is Perform),
        job_step(job_step(s, event).0, later).0.failure == job_step(s, event).0.failure,
{
}

/// A job ends only when its files were handed out for removal: all of
/// `cleanup` in any case, all of `cleanup_on_failure` after a failure. It
/// ends with its first failure, and without one only if every task was
/// handed out and none failed.
pub proof fn lemma_finish_after_cleanup(s: JobView, event: EventView)
    requires
        job_inv(s),
        job_step(s, event).1 is Finish,
    ensures
        job_step(s, event).0.phase == Phase::Finished,
        job_step(s, event).0.removed == s.plan.cleanup.len(),
        job_step(s, event).0.failure is Some ==> job_step(s, event).0.removed_on_failure
            == s.plan.cleanup_on_failure.len(),
        job_step(s, event).1 == (StepView::Finish { failure: job_step(s, event).0.failure }),
        job_step(s, event).0.failure is None ==> job_step(s, event).0.issued
            == s.plan.tasks.len(),
{
}

/// Every step but the end brings the job nearer to its end, so a job ends
/// after at most as many steps as its plan has tasks and files, and one.
pub proof fn lemma_steps_run_out(s: JobView, event: EventView)
    requires
        job_inv(s),
        s.phase != Phase::Finished,
    ensures
        steps_left(job_step(s, event).0) < steps_left(s),
        steps_left(job_step(s, event).0) >= 0,
{
}

/// Once ended, a job stays ended and repeats its result.
pub proof fn lemma_finished_stays(s: JobView, event: EventView)
    requires
        job_inv(s),
        s.phase == Phase::Finished,
    ensures
        job_step(s, event).0 == s,
        job_step(s, event).1 == (StepView::Finish { failure: s.failure }),
{
}

/// The steps that a job gives in answer to `events`, one for each, from the
/// state `s` on.
pub open spec fn job_trace(s: JobView, events: Seq<EventView>) -> Seq<StepView>
    decreases events.len(),
{
    if events.len() == 0 {
        Seq::<StepView>::empty()
    } else {
        seq![job_step(s, events[0]).1] + job_trace(job_step(s, events[0]).0, events.drop_first())
    }
}

/// The steps that hand out `tasks`, in their order.
pub open spec fn performs(tasks: Seq<TaskView>) -> Seq<StepView> {
    Seq::new(tasks.len(), |i: int| StepView::Perform(tasks[i]))
}

/// The steps that have `paths` removed, in their order.
pub open spec fn removes(paths: Seq<Seq<char>>) -> Seq<StepView> {
    Seq::new(paths.len(), |i: int| StepView::Remove { path: paths[i] })
}

/// The steps that are left once the tasks of `s` are over: the files not yet
/// handed out for removal, those for the case of failure after a failure,
/// and the end.
pub open spec fn cleaning_steps(s: JobView) -> Seq<StepView> {
    removes(s.plan.cleanup.skip(s.removed as int)) + (if s.failure is Some {
        removes(s.plan.cleanup_on_failure.skip(s.removed_on_failure as int))
    } else {
        Seq::<StepView>::empty()
    }) + seq![StepView::Finish { failure: s.failure }]
}

/// Once the tasks are over, a job gives [`cleaning_steps`], whatever the
/// host reports.
proof fn lemma_cleaning_trace(s: JobView, events: Seq<EventView>)
    requires
        s.removed <= s.plan.cleanup.len(),
        s.removed_on_failure <= s.plan.cleanup_on_failure.len(),
        s.removed_on_failure > 0 ==> s.removed == s.plan.cleanup.len() && s.failure is Some,
        events.len() + 1 == cleaning_steps(s).len(),
    ensures
        seq![clean_step(s).1] + job_trace(clean_step(s).0, events) == cleaning_steps(s),
    decreases events.len(),
{
    let next = clean_step(s).0;
    let pending = s.plan.cleanup.skip(s.removed as int);
    let pending_on_failure = s.plan.cleanup_on_failure.skip(s.removed_on_failure as int);
    if events.len() == 0 {
        assert(seq![clean_step(s).1] + job_trace(next, events) =~= cleaning_steps(s));
    } else {
        assert(next.phase == Phase::Cleaning);
        assert(job_step(next, events[0]) == clean_step(next));
        lemma_cleaning_trace(next, events.drop_first());
        if s.removed < s.plan.cleanup.len() {
            assert(s.plan.cleanup.skip(next.removed as int) =~= pending.drop_first());
            assert(removes(pending) =~= seq![clean_step(s).1] + removes(pending.drop_first()));
        } else {
            assert(s.plan.cleanup_on_failure.skip(next.removed_on_failure as int)
                =~= pending_on_failure.drop_first());
            assert(removes(pending_on_failure) =~= seq![clean_step(s).1] + removes(
                pending_on_failure.drop_first(),
            ));
            assert(removes(pending) =~= Seq::<StepView>::empty());
            assert(removes(s.plan.cleanup.skip(next.removed as int)) =~= Seq::<StepView>::empty());
        }
        assert(seq![clean_step(s).1] + job_trace(next, events) =~= seq![clean_step(s).1]
            + cleaning_steps(next));
        assert(seq![clean_step(s).1] + cleaning_steps(next) =~= cleaning_steps(s));
    }
}

/// From a state in which tasks are being done, a job whose tasks all succeed
/// hands out the tasks that are left, then has the files removed, then ends
/// in success.
proof fn lemma_working_trace(s: JobView, events: Seq<EventView>)
    requires
        job_inv(s),
        s.phase == Phase::Working,
        events.len() == (s.plan.tasks.len() - s.issued) + s.plan.cleanup.len() + 1,
        forall|j: int| 0 <= j < events.len() ==> !is_failure(#[trigger] events[j]),
    ensures
        job_trace(s, events) == performs(s.plan.tasks.skip(s.issued as int)) + removes(
            s.plan.cleanup,
        ) + seq![StepView::Finish { failure: None }],
    decreases s.plan.tasks.len() - s.issued,
{
    let left = s.plan.tasks.skip(s.issued as int);
    let rest = events.drop_first();
    assert(!is_failure(events[0]));
    if s.issued < s.plan.tasks.len() {
        let next = job_step(s, events[0]).0;
        assert forall|j: int| 0 <= j < rest.len() implies !is_failure(#[trigger] rest[j]) by {
            assert(rest[j] == events[j + 1]);
        }
        lemma_working_trace(next, rest);
        assert(s.plan.tasks.skip(next.issued as int) =~= left.drop_first());
        assert(performs(left) =~= seq![StepView::Perform(left[0])] + performs(left.drop_first()));
        assert(job_trace(s, events) =~= performs(left) + removes(s.plan.cleanup) + seq![
            StepView::Finish { failure: None },
        ]);
    } else {
        assert(job_step(s, events[0]) == clean_step(s));
        lemma_cleaning_trace(s, rest);
        assert(s.plan.cleanup.skip(0) =~= s.plan.cleanup);
        assert(performs(left) =~= Seq::<StepView>::empty());
        assert(job_trace(s, events) =~= performs(left) + removes(s.plan.cleanup) + seq![
            StepView::Finish { failure: None },
        ]);
    }
}

/// From a state in which tasks are being done, a job whose tasks succeed up
/// to task `k`, which fails, hands out the tasks up to that one, then has
/// all files removed, then ends with the failure of task `k`.
proof fn lemma_failing_trace(s: JobView, events: Seq<EventView>, k: int)
    requires
        job_inv(s),
        s.phase == Phase::Working,
        0 <= k,
        s.issued <= k + 1 <= s.plan.tasks.len(),
        events.len() == (k + 1 - s.issued) + 1 + s.plan.cleanup.len()
            + s.plan.cleanup_on_failure.len(),
        forall|j: int| 0 <= j < k + 1 - s.issued ==> !is_failure(#[trigger] events[j]),
        is_failure(events[k + 1 - s.issued]),
    ensures
        job_trace(s, events) == performs(s.plan.tasks.subrange(s.issued as int, k + 1)) + removes(
            s.plan.cleanup,
        ) + removes(s.plan.cleanup_on_failure) + seq![
            StepView::Finish {
                failure: Some(failure_text(s.plan.tasks[k], events[k + 1 - s.issued])),
            },
        ],
    decreases k + 1 - s.issued,
{
    let left = s.plan.tasks.subrange(s.issued as int, k + 1);
    let rest = events.drop_first();
    let end = seq![
        StepView::Finish {
            failure: Some(failure_text(s.plan.tasks[k], events[k + 1 - s.issued])),
        },
    ];
    if s.issued <= k {
        assert(!is_failure(events[0]));
        let next = job_step(s, events[0]).0;
        assert forall|j: int| 0 <= j < k + 1 - next.issued implies !is_failure(
            #[trigger] rest[j],
        ) by {
            assert(rest[j] == events[j + 1]);
        }
        assert(rest[k + 1 - next.issued] == events[k + 1 - s.issued]);
        lemma_failing_trace(next, rest, k);
        assert(s.plan.tasks.subrange(next.issued as int, k + 1) =~= left.drop_first());
        assert(performs(left) =~= seq![StepView::Perform(left[0])] + performs(left.drop_first()));
        assert(job_trace(s, events) =~= performs(left) + removes(s.plan.cleanup) + removes(
            s.plan.cleanup_on_failure,
        ) + end);
    } else {
        let failed = JobView { failure: Some(failure_text(s.plan.tasks[k], events[0])), ..s };
        assert(job_step(s, events[0]) == clean_step(failed));
        assert(s.plan.cleanup.skip(0) =~= s.plan.cleanup);
        assert(s.plan.cleanup_on_failure.skip(0) =~= s.plan.cleanup_on_failure);
        lemma_cleaning_trace(failed, rest);
        assert(performs(left) =~= Seq::<StepView>::empty());
        assert(job_trace(s, events) =~= performs(left) + removes(s.plan.cleanup) + removes(
            s.plan.cleanup_on_failure,
        ) + end);
    }
}

/// A job whose tasks all succeed hands out every task of its plan in the
/// plan's order, then has every file of `cleanup` removed, and ends in
/// success; the files for the case of failure stay. What the host reports
/// of the removals changes nothing.
pub proof fn lemma_successful_run(plan: PlanView, events: Seq<EventView>)
    requires
        events.len() == plan.tasks.len() + plan.cleanup.len() + 1,
        forall|j: int| 0 <= j <= plan.tasks.len() ==> !is_failure(#[trigger] events[j]),
    ensures
        job_trace(fresh_job(plan), events) == performs(plan.tasks) + removes(plan.cleanup) + seq![
            StepView::Finish { failure: None },
        ],
{
    let s = fresh_job(plan);
    lemma_run_ignores_removals(s, events, plan.tasks.len() as int + 1);
    let calm = calmed(events, plan.tasks.len() as int + 1);
    lemma_working_trace(s, calm);
    assert(plan.tasks.skip(0) =~= plan.tasks);
}

/// A job whose task `k` fails after those before it succeeded hands out the
/// tasks up to that one in the plan's order and no other, has every file of
/// `cleanup` and of `cleanup_on_failure` removed, and ends with the failure
/// of task `k`: the message for that task and for what the host reported of
/// it. What the host reports afterwards changes nothing.
pub proof fn lemma_failed_run(plan: PlanView, events: Seq<EventView>, k: int)
    requires
        0 <= k < plan.tasks.len(),
        events.len() == k + 2 + plan.cleanup.len() + plan.cleanup_on_failure.len(),
        forall|j: int| 0 <= j <= k ==> !is_failure(#[trigger] events[j]),
        is_failure(events[k + 1]),
    ensures
        job_trace(fresh_job(plan), events) == performs(plan.tasks.take(k + 1)) + removes(
            plan.cleanup,
        ) + removes(plan.cleanup_on_failure) + seq![
            StepView::Finish { failure: Some(failure_text(plan.tasks[k], events[k + 1])) },
        ],
{
    lemma_failing_trace(fresh_job(plan), events, k);
    assert(plan.tasks.subrange(0, k + 1) =~= plan.tasks.take(k + 1));
}

/// `events` with those from position `from` on replaced by reports of
/// success.
pub open spec fn calmed(events: Seq<EventView>, from: int) -> Seq<EventView> {
    Seq::new(
        events.len(),
        |j: int|
            if j < from {
                events[j]
            } else {
                EventView::Done
            },
    )
}

/// What the host reports once the last task has been answered for does not
/// change the steps of a job.
proof fn lemma_run_ignores_removals(s: JobView, events: Seq<EventView>, from: int)
    requires
        job_inv(s),
        s.phase == Phase::Working ==> from >= s.plan.tasks.len() - s.issued + 1 && forall|j: int|
            0 <= j < from && j < events.len() ==> !is_failure(#[trigger] events[j]),
        s.phase != Phase::Working ==> from >= 0,
    ensures
        job_trace(s, events) == job_trace(s, calmed(events, from)),
    decreases events.len(),
{
    let calm = calmed(events, from);
    if events.len() > 0 {
        let rest = events.drop_first();
        assert(calm.drop_first() =~= calmed(rest, from - 1));
        if s.phase == Phase::Working {
            assert(from >= 1);
            assert(calm[0] == events[0]);
            let next = job_step(s, events[0]).0;
            lemma_step_keeps_invariant(s, events[0]);
            assert forall|j: int| 0 <= j < from - 1 && j < rest.len() implies !is_failure(
                #[trigger] rest[j],
            ) by {
                assert(rest[j] == events[j + 1]);
            }
            lemma_run_ignores_removals(next, rest, from - 1);
        } else {
            assert(job_step(s, events[0]) == job_step(s, calm[0]));
            let next = job_step(s, events[0]).0;
            lemma_step_keeps_invariant(s, events[0]);
            lemma_run_ignores_removals(next, rest, if from - 1 >= 0 {
                from - 1
            } else {
                0
            });
            assert(calmed(rest, from - 1) =~= calmed(rest, if from - 1 >= 0 {
                from - 1
            } else {
                0
            }));
        }
    }
}

/// On the fast way, a job whose tasks all succeed cuts the clips in timeline
/// order, writes the manifest that names the cuts in that order, joins them,
/// and then has every cut and the manifest removed.
pub proof fn lemma_fast_run_keeps_order(
    clips: Seq<TimelineClip>,
    output: Seq<char>,
    temp_dir: Seq<char>,
    events: Seq<EventView>,
    i: int,
)
    requires
        0 <= i < clips.len(),
        events.len() == fast_plan(clips, output, temp_dir).tasks.len() + fast_plan(
            clips,
            output,
            temp_dir,
        ).cleanup.len() + 1,
        forall|j: int| 0 <= j <= clips.len() + 2 ==> !is_failure(#[trigger] events[j]),
    ensures
        events.len() == 2 * clips.len() + 4,
        job_trace(fresh_job(fast_plan(clips, output, temp_dir)), events)[i] == StepView::Perform(
            fast_clip_task(clips, temp_dir, i),
        ),
        job_trace(fresh_job(fast_plan(clips, output, temp_dir)), events)[clips.len() + 2 + i]
            == (StepView::Remove { path: temp_clip_path(temp_dir, i as nat) }),
        job_trace(fresh_job(fast_plan(clips, output, temp_dir)), events)[2 * clips.len() as int + 2]
            == (StepView::Remove { path: manifest_path(temp_dir) }),
        job_trace(fresh_job(fast_plan(clips, output, temp_dir)), events).last()
            == (StepView::Finish { failure: None }),
{
    let plan = fast_plan(clips, output, temp_dir);
    lemma_successful_run(plan, events);
}

} // verus!
