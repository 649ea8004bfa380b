//! The schedule of a batch: which table to prepare, which job to start,
//! when to wait, and what to report in the end.

use vstd::prelude::*;
use vstd::string::StringExecFns;
use crate::ingest::{
    AggregateError, BatchAction, BatchActionView, IngestError, IngestJob, JobState, Loaded,
    Rejected,
};
use crate::schema::{
    is_benign, refusal, schema_statement_texts, schema_statements, schema_verdict, SchemaError,
    SchemaFault, SqlFailure,
};
use crate::text::{same_text, texts};

verus! {

/// How many jobs are in a given state.
pub open spec fn count(states: Seq<JobState>, which: JobState) -> nat
    decreases states.len(),
{
    if states.len() == 0 {
        0
    } else if states.last() == which {
        count(states.drop_last(), which) + 1
    } else {
        count(states.drop_last(), which)
    }
}

/// The tables of the jobs, in the order of the jobs.
pub open spec fn job_tables(jobs: Seq<IngestJob>) -> Seq<Seq<char>> {
    Seq::new(jobs.len(), |i: int| jobs[i].target.table@)
}

/// The texts without repetitions, each where it first occurs.
pub open spec fn distinct(names: Seq<Seq<char>>) -> Seq<Seq<char>>
    decreases names.len(),
{
    if names.len() == 0 {
        Seq::empty()
    } else {
        let before = distinct(names.drop_last());
        if before.contains(names.last()) {
            before
        } else {
            before.push(names.last())
        }
    }
}

/// One schema statement and the table that it prepares.
#[derive(Debug, Clone)]
pub struct SchemaStep {
    pub table: String,
    pub statement: String,
}

/// The model of a schema step.
pub struct StepView {
    pub table: Seq<char>,
    pub statement: Seq<char>,
}

impl View for SchemaStep {
    type V = StepView;

    open spec fn view(&self) -> StepView {
        StepView { table: self.table@, statement: self.statement@ }
    }
}

/// The models of the steps.
pub open spec fn step_views(steps: Seq<SchemaStep>) -> Seq<StepView> {
    Seq::new(steps.len(), |i: int| steps[i]@)
}

/// The schema statements of one table, in the order in which they run.
pub open spec fn table_steps(table: Seq<char>) -> Seq<StepView> {
    Seq::new(
        schema_statement_texts(table).len(),
        |i: int| StepView { table, statement: schema_statement_texts(table)[i] },
    )
}

/// The schema statements of the tables, table after table.
pub open spec fn schema_plan(tables: Seq<Seq<char>>) -> Seq<StepView>
    decreases tables.len(),
{
    if tables.len() == 0 {
        Seq::empty()
    } else {
        schema_plan(tables.drop_last()) + table_steps(tables.last())
    }
}

/// The paths of the jobs that have not ended, in the order of the jobs.
pub open spec fn unfinished_paths(jobs: Seq<IngestJob>, states: Seq<JobState>) -> Seq<Seq<char>>
    decreases jobs.len(),
{
    if jobs.len() == 0 || states.len() != jobs.len() {
        Seq::empty()
    } else if states.last() is Finished {
        unfinished_paths(jobs.drop_last(), states.drop_last())
    } else {
        unfinished_paths(jobs.drop_last(), states.drop_last()).push(jobs.last().path@)
    }
}

/// The model of a batch.
pub struct BatchModel {
    pub jobs: Seq<IngestJob>,
    /// The schema statements to run: those of each table, each table once.
    pub plan: Seq<StepView>,
    /// How many of the schema statements are done.
    pub prepared: nat,
    /// Whether the answer to a schema statement is owed.
    pub asked: bool,
    pub schema_error: Option<SchemaFault>,
    pub states: Seq<JobState>,
    /// How many jobs have been started: the first ones of the batch.
    pub started: nat,
    pub limit: nat,
    pub loaded: Seq<Loaded>,
    pub rejected: Seq<Rejected>,
}

impl BatchModel {
    /// A batch of which nothing has been done.
    pub open spec fn initial(jobs: Seq<IngestJob>, limit: nat) -> BatchModel {
        BatchModel {
            jobs,
            plan: schema_plan(distinct(job_tables(jobs))),
            prepared: 0,
            asked: false,
            schema_error: None,
            states: Seq::new(jobs.len(), |i: int| JobState::Pending),
            started: 0,
            limit: if limit == 0 {
                1
            } else {
                limit
            },
            loaded: Seq::empty(),
            rejected: Seq::empty(),
        }
    }

    /// How many jobs are running.
    pub open spec fn running(self) -> nat {
        count(self.states, JobState::Running)
    }

    /// Whether a job has a place among the loaded or the rejected files.
    pub open spec fn accounted(self, job: int) -> bool {
        ||| exists|k: int| 0 <= k < self.loaded.len() && (#[trigger] self.loaded[k]).job == job
        ||| exists|k: int| 0 <= k < self.rejected.len() && (#[trigger] self.rejected[k]).job == job
    }

    /// What holds of every batch, whatever the caller reports.
    pub open spec fn well_formed(self) -> bool {
        &&& self.limit >= 1
        &&& self.states.len() == self.jobs.len()
        &&& self.started <= self.jobs.len()
        &&& self.prepared <= self.plan.len()
        &&& forall|i: int|
            0 <= i < self.states.len() ==> ((#[trigger] self.states[i]) is Pending <==> i
                >= self.started)
        &&& self.running() <= self.limit
        &&& self.started > 0 ==> self.prepared == self.plan.len() && self.schema_error is None
        &&& self.loaded.len() + self.rejected.len() == count(self.states, JobState::Finished)
        &&& forall|k: int|
            0 <= k < self.loaded.len() ==> {
                let entry = #[trigger] self.loaded[k];
                &&& entry.job < self.jobs.len()
                &&& self.states[entry.job as int] is Finished
                &&& entry.path == self.jobs[entry.job as int].path
            }
        &&& forall|k: int|
            0 <= k < self.rejected.len() ==> {
                let entry = #[trigger] self.rejected[k];
                &&& entry.job < self.jobs.len()
                &&& self.states[entry.job as int] is Finished
                &&& entry.path == self.jobs[entry.job as int].path
            }
        &&& forall|i: int|
            0 <= i < self.states.len() && (#[trigger] self.states[i]) is Finished
                ==> self.accounted(i)
    }

    /// What the batch asks for next, and the batch after that.
    ///
    /// After a schema error nothing is started. The tables are prepared one
    /// after another, statement by statement, before any job. Then the next
    /// job is started while fewer jobs run than the limit allows; with the
    /// limit reached, or no job left to start, the batch waits for a running
    /// job, and with none running it is finished.
    pub open spec fn next_action(self) -> (BatchModel, BatchActionView) {
        if self.schema_error is Some {
            (self, BatchActionView::Finish)
        } else if self.prepared < self.plan.len() {
            let step = self.plan[self.prepared as int];
            if self.asked {
                (self, BatchActionView::Wait)
            } else {
                (
                    BatchModel { asked: true, ..self },
                    BatchActionView::Execute { table: step.table, statement: step.statement },
                )
            }
        } else if self.started < self.jobs.len() && self.started < self.states.len()
            && self.running() < self.limit {
            let job = self.jobs[self.started as int];
            (
                BatchModel {
                    states: self.states.update(self.started as int, JobState::Running),
                    started: self.started + 1,
                    ..self
                },
                BatchActionView::Start {
                    job: self.started,
                    path: job.path@,
                    table: job.target.table@,
                },
            )
        } else if self.running() > 0 {
            (self, BatchActionView::Wait)
        } else {
            (self, BatchActionView::Finish)
        }
    }

    /// Whether the answer to a schema statement is awaited.
    pub open spec fn awaits_statement(self) -> bool {
        self.asked && self.schema_error is None && self.prepared < self.plan.len()
    }

    /// The batch after the store's answer to the schema statement that was
    /// asked for. A statement that ran, or was refused because what it
    /// creates already exists, is done; any other refusal ends the batch.
    pub open spec fn statement_checked(self, outcome: Result<(), SqlFailure>) -> BatchModel {
        if !self.awaits_statement() {
            self
        } else {
            let table = self.plan[self.prepared as int].table;
            match outcome {
                Err(failure) if !is_benign(failure) => BatchModel {
                    asked: false,
                    schema_error: Some(refusal(table, failure)),
                    ..self
                },
                _ => BatchModel { asked: false, prepared: self.prepared + 1, ..self },
            }
        }
    }

    /// Whether a job is running, so that its end can be reported.
    pub open spec fn awaits_job(self, job: nat) -> bool {
        job < self.states.len() && job < self.jobs.len() && self.states[job as int] is Running
    }

    /// The batch after the end of a running job.
    pub open spec fn job_finished(self, job: nat, result: Result<usize, IngestError>) -> BatchModel {
        if !self.awaits_job(job) {
            self
        } else {
            let states = self.states.update(job as int, JobState::Finished);
            let path = self.jobs[job as int].path;
            match result {
                Ok(rows) => BatchModel {
                    states,
                    loaded: self.loaded.push(Loaded { job: job as usize, path, rows }),
                    ..self
                },
                Err(cause) => BatchModel {
                    states,
                    rejected: self.rejected.push(Rejected { job: job as usize, path, cause }),
                    ..self
                },
            }
        }
    }

    /// Whether every file was loaded.
    pub open spec fn clean(self) -> bool {
        &&& self.schema_error is None
        &&& self.rejected.len() == 0
        &&& unfinished_paths(self.jobs, self.states).len() == 0
    }
}

fn count_running(states: &Vec<JobState>) -> (n: usize)
    ensures
        n == count(states@, JobState::Running),
{
    let mut n: usize = 0;
    let mut i: usize = 0;
    while i < states.len()
        invariant
            i <= states.len(),
            n <= i,
            n == count(states@.take(i as int), JobState::Running),
        decreases states.len() - i,
    {
        proof {
            assert(states@.take(i + 1).drop_last() == states@.take(i as int));
        }
        match states[i] {
            JobState::Running => {
                n += 1;
            },
            _ => {},
        }
        i += 1;
    }
    proof {
        assert(states@.take(i as int) == states@);
    }
    n
}

fn contains_text(list: &Vec<String>, name: &str) -> (found: bool)
    ensures
        found == texts(list@).contains(name@),
{
    let mut i: usize = 0;
    while i < list.len()
        invariant
            i <= list.len(),
            forall|j: int| 0 <= j < i ==> texts(list@)[j] != name@,
        decreases list.len() - i,
    {
        if same_text(list[i].as_str(), name) {
            assert(texts(list@)[i as int] == name@);
            return true;
        }
        i += 1;
    }
    false
}

fn distinct_tables(jobs: &Vec<IngestJob>) -> (tables: Vec<String>)
    ensures
        texts(tables@) == distinct(job_tables(jobs@)),
{
    let mut tables: Vec<String> = Vec::new();
    let mut i: usize = 0;
    while i < jobs.len()
        invariant
            i <= jobs.len(),
            texts(tables@) == distinct(job_tables(jobs@).take(i as int)),
        decreases jobs.len() - i,
    {
        proof {
            let all = job_tables(jobs@);
            assert(all.take(i + 1).drop_last() == all.take(i as int));
            assert(all.take(i + 1).last() == jobs[i as int].target.table@);
        }
        if !contains_text(&tables, jobs[i].target.table.as_str()) {
            let ghost before = texts(tables@);
            tables.push(jobs[i].target.table.clone());
            assert(texts(tables@) =~= before.push(jobs[i as int].target.table@));
        }
        i += 1;
    }
    proof {
        assert(job_tables(jobs@).take(i as int) == job_tables(jobs@));
    }
    tables
}

fn unfinished(jobs: &Vec<IngestJob>, states: &Vec<JobState>) -> (paths: Vec<String>)
    ensures
        texts(paths@) == unfinished_paths(jobs@, states@),
{
    let mut paths: Vec<String> = Vec::new();
    if states.len() != jobs.len() {
        return paths;
    }
    let mut i: usize = 0;
    while i < jobs.len()
        invariant
            i <= jobs.len(),
            states.len() == jobs.len(),
            texts(paths@) == unfinished_paths(jobs@.take(i as int), states@.take(i as int)),
        decreases jobs.len() - i,
    {
        proof {
            assert(jobs@.take(i + 1).drop_last() == jobs@.take(i as int));
            assert(states@.take(i + 1).drop_last() == states@.take(i as int));
        }
        match states[i] {
            JobState::Finished => {},
            _ => {
                let ghost before = texts(paths@);
                paths.push(jobs[i].path.clone());
                assert(texts(paths@) =~= before.push(jobs[i as int].path@));
            },
        }
        i += 1;
    }
    proof {
        assert(jobs@.take(i as int) == jobs@);
        assert(states@.take(i as int) == states@);
    }
    paths
}

fn steps_of(table: &str) -> (steps: Vec<SchemaStep>)
    ensures
        step_views(steps@) == table_steps(table@),
{
    let statements = schema_statements(table);
    let mut steps: Vec<SchemaStep> = Vec::new();
    let mut i: usize = 0;
    while i < statements.len()
        invariant
            i <= statements.len(),
            texts(statements@) == schema_statement_texts(table@),
            steps.len() == i,
            forall|j: int|
                0 <= j < i ==> (#[trigger] steps[j])@ == (StepView {
                    table: table@,
                    statement: schema_statement_texts(table@)[j],
                }),
        decreases statements.len() - i,
    {
        assert(texts(statements@)[i as int] == statements[i as int]@);
        steps.push(
            SchemaStep {
                table: String::from_str(table),
                statement: statements[i].clone(),
            },
        );
        i += 1;
    }
    assert(texts(statements@).len() == statements.len());
    assert(step_views(steps@) =~= table_steps(table@));
    steps
}

fn plan_schema(tables: &Vec<String>) -> (plan: Vec<SchemaStep>)
    ensures
        step_views(plan@) == schema_plan(texts(tables@)),
{
    let mut plan: Vec<SchemaStep> = Vec::new();
    let mut i: usize = 0;
    while i < tables.len()
        invariant
            i <= tables.len(),
            step_views(plan@) == schema_plan(texts(tables@).take(i as int)),
        decreases tables.len() - i,
    {
        let mut steps = steps_of(tables[i].as_str());
        proof {
            let all = texts(tables@);
            assert(all.take(i + 1).drop_last() == all.take(i as int));
            assert(all.take(i + 1).last() == tables[i as int]@);
        }
        let ghost before = plan@;
        let ghost added = steps@;
        plan.append(&mut steps);
        assert(step_views(plan@) =~= step_views(before) + step_views(added));
        i += 1;
    }
    proof {
        assert(texts(tables@).take(i as int) == texts(tables@));
    }
    plan
}

/// A batch of jobs and how far it has come.
pub struct Batch {
    jobs: Vec<IngestJob>,
    plan: Vec<SchemaStep>,
    prepared: usize,
    asked: bool,
    schema_error: Option<SchemaError>,
    states: Vec<JobState>,
    started: usize,
    limit: usize,
    loaded: Vec<Loaded>,
    rejected: Vec<Rejected>,
}

impl View for Batch {
    type V = BatchModel;

    closed spec fn view(&self) -> BatchModel {
        BatchModel {
            jobs: self.jobs@,
            plan: step_views(self.plan@),
            prepared: self.prepared as nat,
            asked: self.asked,
            schema_error: match self.schema_error {
                Some(e) => Some(e@),
                None => None,
            },
            states: self.states@,
            started: self.started as nat,
            limit: self.limit as nat,
            loaded: self.loaded@,
            rejected: self.rejected@,
        }
    }
}

impl Batch {
    /// A batch of the jobs, of which at most `limit` run side by side. A
    /// limit of zero is taken as one.
    pub fn new(jobs: Vec<IngestJob>, limit: usize) -> (batch: Batch)
        ensures
            batch@ == BatchModel::initial(jobs@, limit as nat),
    {
        let tables = distinct_tables(&jobs);
        let plan = plan_schema(&tables);
        let mut states: Vec<JobState> = Vec::new();
        let mut i: usize = 0;
        while i < jobs.len()
            invariant
                i <= jobs.len(),
                states.len() == i,
                forall|j: int| 0 <= j < i ==> states[j] == JobState::Pending,
            decreases jobs.len() - i,
        {
            states.push(JobState::Pending);
            i += 1;
        }
        assert(states@ =~= Seq::new(jobs@.len(), |i: int| JobState::Pending));
        Batch {
            jobs,
            plan,
            prepared: 0,
            asked: false,
            schema_error: None,
            states,
            started: 0,
            limit: if limit == 0 {
                1
            } else {
                limit
            },
            loaded: Vec::new(),
            rejected: Vec::new(),
        }
    }

    /// How many jobs are running.
    pub fn running(&self) -> (n: usize)
        ensures
            n == self@.running(),
    {
        count_running(&self.states)
    }

    /// Says what to do next.
    pub fn next_action(&mut self) -> (action: BatchAction)
        ensures
            (final(self)@, action@) == old(self)@.next_action(),
    {
        if self.schema_error.is_some() {
            return BatchAction::Finish;
        }
        if self.prepared < self.plan.len() {
            if self.asked {
                return BatchAction::Wait;
            }
            self.asked = true;
            return BatchAction::Execute {
                table: self.plan[self.prepared].table.clone(),
                statement: self.plan[self.prepared].statement.clone(),
            };
        }
        let running = count_running(&self.states);
        if self.started < self.jobs.len() && self.started < self.states.len() && running
            < self.limit {
            let job = self.started;
            self.states.set(job, JobState::Running);
            self.started = job + 1;
            BatchAction::Start {
                job,
                path: self.jobs[job].path.clone(),
                table: self.jobs[job].target.table.clone(),
            }
        } else if running > 0 {
            BatchAction::Wait
        } else {
            BatchAction::Finish
        }
    }

    /// Takes the store's answer to the schema statement that was asked
    /// for. An answer that was not asked for is ignored, and `false` is
    /// returned.
    pub fn statement_checked(&mut self, outcome: Result<(), SqlFailure>) -> (accepted: bool)
        ensures
            accepted == old(self)@.awaits_statement(),
            final(self)@ == old(self)@.statement_checked(outcome),
    {
        if !self.asked || self.schema_error.is_some() || self.prepared >= self.plan.len() {
            return false;
        }
        match schema_verdict(self.plan[self.prepared].table.as_str(), outcome) {
            Ok(_) => {
                self.asked = false;
                self.prepared = self.prepared + 1;
            },
            Err(e) => {
                self.asked = false;
                self.schema_error = Some(e);
            },
        }
        true
    }

    /// Takes the end of a running job: the number of its rows, or why it
    /// failed. The end of a job that is not running is ignored, and `false`
    /// is returned.
    pub fn job_finished(&mut self, job: usize, result: Result<usize, IngestError>) -> (accepted:
        bool)
        ensures
            accepted == old(self)@.awaits_job(job as nat),
            final(self)@ == old(self)@.job_finished(job as nat, result),
    {
        if job >= self.states.len() || job >= self.jobs.len() {
            return false;
        }
        match self.states[job] {
            JobState::Running => {},
            _ => {
                return false;
            },
        }
        self.states.set(job, JobState::Finished);
        let path = self.jobs[job].path.clone();
        match result {
            Ok(rows) => {
                self.loaded.push(Loaded { job, path, rows });
            },
            Err(cause) => {
                self.rejected.push(Rejected { job, path, cause });
            },
        }
        true
    }

    /// The report of the batch: the loaded files where every file was
    /// loaded, else every file with what became of it.
    pub fn outcome(self) -> (res: Result<Vec<Loaded>, AggregateError>)
        ensures
            match res {
                Ok(loaded) => self@.clean() && loaded@ == self@.loaded,
                Err(e) => {
                    &&& !self@.clean()
                    &&& match e.schema {
                        Some(error) => self@.schema_error == Some(error@),
                        None => self@.schema_error is None,
                    }
                    &&& e.rejected@ == self@.rejected
                    &&& e.loaded@ == self@.loaded
                    &&& texts(e.unfinished@) == unfinished_paths(self@.jobs, self@.states)
                },
            },
    {
        let paths = unfinished(&self.jobs, &self.states);
        if self.schema_error.is_none() && self.rejected.len() == 0 && paths.len() == 0 {
            Ok(self.loaded)
        } else {
            Err(
                AggregateError {
                    schema: self.schema_error,
                    rejected: self.rejected,
                    loaded: self.loaded,
                    unfinished: paths,
                },
            )
        }
    }
}

proof fn lemma_count_update(states: Seq<JobState>, i: int, to: JobState, which: JobState)
    requires
        0 <= i < states.len(),
    ensures
        count(states.update(i, to), which) + (if states[i] == which {
            1nat
        } else {
            0nat
        }) == count(states, which) + (if to == which {
            1nat
        } else {
            0nat
        }),
    decreases states.len(),
{
    let updated = states.update(i, to);
    if i == states.len() - 1 {
        assert(updated.drop_last() =~= states.drop_last());
    } else {
        assert(updated.drop_last() =~= states.drop_last().update(i, to));
        lemma_count_update(states.drop_last(), i, to, which);
    }
}

proof fn lemma_count_none(states: Seq<JobState>, which: JobState)
    requires
        forall|i: int| 0 <= i < states.len() ==> states[i] != which,
    ensures
        count(states, which) == 0,
    decreases states.len(),
{
    if states.len() > 0 {
        lemma_count_none(states.drop_last(), which);
    }
}

proof fn lemma_count_some(states: Seq<JobState>, which: JobState, i: int)
    requires
        0 <= i < states.len(),
        states[i] == which,
    ensures
        count(states, which) > 0,
    decreases states.len(),
{
    if i < states.len() - 1 {
        lemma_count_some(states.drop_last(), which, i);
    }
}

proof fn lemma_all_finished(jobs: Seq<IngestJob>, states: Seq<JobState>)
    requires
        jobs.len() == states.len(),
        forall|i: int| 0 <= i < states.len() ==> states[i] is Finished,
    ensures
        unfinished_paths(jobs, states).len() == 0,
    decreases jobs.len(),
{
    if jobs.len() > 0 {
        lemma_all_finished(jobs.drop_last(), states.drop_last());
    }
}

/// A new batch is well formed.
pub proof fn lemma_initial_well_formed(jobs: Seq<IngestJob>, limit: nat)
    ensures
        BatchModel::initial(jobs, limit).well_formed(),
{
    let m = BatchModel::initial(jobs, limit);
    lemma_count_none(m.states, JobState::Running);
    lemma_count_none(m.states, JobState::Finished);
}

/// Asking for the next step keeps a batch well formed. So at most as many
/// jobs run as the limit allows, a job is started once, as the next of the
/// batch, and none is started before every table is ready.
pub proof fn lemma_next_action_well_formed(m: BatchModel)
    requires
        m.well_formed(),
    ensures
        m.next_action().0.well_formed(),
        m.next_action().0.running() <= m.limit,
        m.next_action().1 matches BatchActionView::Start { job, .. } ==> {
            &&& job == m.started
            &&& m.states[job as int] is Pending
            &&& m.next_action().0.started == job + 1
            &&& m.prepared == m.plan.len()
            &&& m.schema_error is None
        },
{
    let (after, action) = m.next_action();
    if action is Start {
        let job = m.started as int;
        assert(m.states[job] is Pending);
        lemma_count_update(m.states, job, JobState::Running, JobState::Running);
        lemma_count_update(m.states, job, JobState::Running, JobState::Finished);
        assert forall|i: int| 0 <= i < after.states.len() implies ((#[trigger] after.states[i])
            is Pending <==> i >= after.started) by {
            if i != job {
                assert(after.states[i] == m.states[i]);
            }
        }
        assert forall|i: int|
            0 <= i < after.states.len() && (#[trigger] after.states[i]) is Finished implies after.accounted(
            i,
        ) by {
            assert(m.states[i] is Finished);
            assert(m.accounted(i));
        }
    }
}

/// Taking the answer to a schema statement keeps a batch well formed.
pub proof fn lemma_statement_checked_well_formed(m: BatchModel, outcome: Result<(), SqlFailure>)
    requires
        m.well_formed(),
    ensures
        m.statement_checked(outcome).well_formed(),
{
    let after = m.statement_checked(outcome);
    assert forall|i: int|
        0 <= i < after.states.len() && (#[trigger] after.states[i]) is Finished implies after.accounted(
        i,
    ) by {
        assert(m.accounted(i));
    }
}

/// Taking the end of a job keeps a batch well formed, and the file of the
/// job is accounted for from then on.
pub proof fn lemma_job_finished_well_formed(
    m: BatchModel,
    job: nat,
    result: Result<usize, IngestError>,
)
    requires
        m.well_formed(),
        job <= usize::MAX,
    ensures
        m.job_finished(job, result).well_formed(),
        m.awaits_job(job) ==> m.job_finished(job, result).accounted(job as int),
{
    let after = m.job_finished(job, result);
    if m.awaits_job(job) {
        let j = job as int;
        lemma_count_update(m.states, j, JobState::Finished, JobState::Running);
        lemma_count_update(m.states, j, JobState::Finished, JobState::Finished);
        assert forall|i: int| 0 <= i < after.states.len() implies ((#[trigger] after.states[i])
            is Pending <==> i >= after.started) by {
            if i != j {
                assert(after.states[i] == m.states[i]);
            }
        }
        match result {
            Ok(rows) => {
                let k = m.loaded.len() as int;
                assert(after.loaded[k].job == job);
                assert forall|k: int| 0 <= k < after.loaded.len() implies {
                    let entry = #[trigger] after.loaded[k];
                    &&& entry.job < after.jobs.len()
                    &&& after.states[entry.job as int] is Finished
                    &&& entry.path == after.jobs[entry.job as int].path
                } by {
                    if k < m.loaded.len() {
                        assert(after.loaded[k] == m.loaded[k]);
                    }
                }
                assert forall|i: int|
                    0 <= i < after.states.len() && (#[trigger] after.states[i])
                        is Finished implies after.accounted(i) by {
                    if i != j {
                        assert(m.states[i] is Finished);
                        assert(m.accounted(i));
                        if exists|k: int|
                            0 <= k < m.loaded.len() && (#[trigger] m.loaded[k]).job == i {
                            let k = choose|k: int|
                                0 <= k < m.loaded.len() && (#[trigger] m.loaded[k]).job == i;
                            assert(after.loaded[k].job == i);
                        }
                    }
                }
            },
            Err(cause) => {
                let k = m.rejected.len() as int;
                assert(after.rejected[k].job == job);
                assert forall|k: int| 0 <= k < after.rejected.len() implies {
                    let entry = #[trigger] after.rejected[k];
                    &&& entry.job < after.jobs.len()
                    &&& after.states[entry.job as int] is Finished
                    &&& entry.path == after.jobs[entry.job as int].path
                } by {
                    if k < m.rejected.len() {
                        assert(after.rejected[k] == m.rejected[k]);
                    }
                }
                assert forall|i: int|
                    0 <= i < after.states.len() && (#[trigger] after.states[i])
                        is Finished implies after.accounted(i) by {
                    if i != j {
                        assert(m.states[i] is Finished);
                        assert(m.accounted(i));
                        if exists|k: int|
                            0 <= k < m.rejected.len() && (#[trigger] m.rejected[k]).job == i {
                            let k = choose|k: int|
                                0 <= k < m.rejected.len() && (#[trigger] m.rejected[k]).job == i;
                            assert(after.rejected[k].job == i);
                        }
                    }
                }
            },
        }
    }
}

/// A table that cannot be prepared ends the batch before any job starts:
/// the batch is finished at once, and every file is still pending.
pub proof fn lemma_schema_error_starts_nothing(m: BatchModel)
    requires
        m.well_formed(),
        m.schema_error is Some,
    ensures
        m.started == 0,
        m.next_action() == (m, BatchActionView::Finish),
        forall|i: int| 0 <= i < m.states.len() ==> (#[trigger] m.states[i]) is Pending,
{
}

/// No file is dropped from the report: when a batch without a schema error
/// says that it is finished, every job has ended, and each file stands
/// among the loaded or the rejected ones.
pub proof fn lemma_finished_batch_accounts_for_all(m: BatchModel)
    requires
        m.well_formed(),
        m.schema_error is None,
        m.next_action().1 is Finish,
    ensures
        forall|i: int| 0 <= i < m.jobs.len() ==> m.accounted(i),
        unfinished_paths(m.jobs, m.states).len() == 0,
        m.loaded.len() + m.rejected.len() == m.jobs.len(),
        m.clean() <==> m.rejected.len() == 0,
{
    assert(m.running() == 0);
    assert(m.started == m.jobs.len());
    assert forall|i: int| 0 <= i < m.states.len() implies (#[trigger] m.states[i]) is Finished by {
        assert(!(m.states[i] is Pending));
        if m.states[i] is Running {
            lemma_count_some(m.states, JobState::Running, i);
        }
    }
    assert forall|i: int| 0 <= i < m.jobs.len() implies m.accounted(i) by {
        assert(m.states[i] is Finished);
    }
    lemma_all_finished(m.jobs, m.states);
    lemma_count_all(m.states, JobState::Finished);
}

proof fn lemma_count_all(states: Seq<JobState>, which: JobState)
    requires
        forall|i: int| 0 <= i < states.len() ==> states[i] == which,
    ensures
        count(states, which) == states.len(),
    decreases states.len(),
{
    if states.len() > 0 {
        lemma_count_all(states.drop_last(), which);
    }
}

} // verus!
