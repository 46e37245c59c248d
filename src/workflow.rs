//! Workflow engine: runs the steps of a workflow in list order, feeding the
//! output of each step into the next one.
use vstd::prelude::*;
use crate::router::{IntelligentRouter, RouteTarget, route_spec};
use crate::orchestration::{
    OrchestrationEngine, index_of, records_outcome, replaced_or_added, result_view, task_for,
    task_outcome,
};
use crate::text::{copy_string, copy_strings, str_eq};

verus! {

/// Lifecycle of a workflow: Pending, then Running, then Completed or Failed.
#[derive(Debug, Clone, Copy, PartialEq, Eq, Structural)]
pub enum WorkflowStatus {
    Pending,
    Running,
    Completed,
    Failed,
}

/// One step of a workflow. `dependencies` and `condition` are carried but
/// not evaluated: steps run strictly in list order.
#[derive(Debug, Clone)]
pub struct WorkflowStep {
    pub id: String,
    pub name: String,
    pub description: String,
    pub task_id: Option<String>,
    pub dependencies: Vec<String>,
    pub condition: Option<String>,
}

/// A workflow definition and its last outcome. `results` holds one
/// `(step id, result)` pair per executed step, in step order.
#[derive(Debug, Clone)]
pub struct Workflow {
    pub id: String,
    pub name: String,
    pub description: String,
    pub steps: Vec<WorkflowStep>,
    pub status: WorkflowStatus,
    pub results: Vec<(String, String)>,
}

/// The identifiers of `steps`, in order.
pub open spec fn step_ids(steps: Seq<WorkflowStep>) -> Seq<Seq<char>> {
    steps.map_values(|s: WorkflowStep| s.id@)
}

pub open spec fn pairs_view(p: Seq<(String, String)>) -> Seq<(Seq<char>, Seq<char>)> {
    p.map_values(|e: (String, String)| (e.0@, e.1@))
}

/// Mathematical view of a workflow run.
pub struct RunView {
    pub workflow_id: Seq<char>,
    pub step_ids: Seq<Seq<char>>,
    pub next: nat,
    pub input: Seq<char>,
    pub results: Seq<(Seq<char>, Seq<char>)>,
    pub failure: Option<Seq<char>>,
}

/// A run that has executed no step yet.
pub open spec fn run_start(workflow_id: Seq<char>, ids: Seq<Seq<char>>, input: Seq<char>) -> RunView {
    RunView {
        workflow_id,
        step_ids: ids,
        next: 0,
        input,
        results: Seq::empty(),
        failure: None,
    }
}

/// The run has a step left to execute and no step has failed.
pub open spec fn run_pending(r: RunView) -> bool {
    r.failure is None && r.next < r.step_ids.len()
}

/// The run after its next step produced `outcome`: a result becomes the
/// next step's input; an error stops the run.
pub open spec fn run_advance(r: RunView, outcome: Result<Seq<char>, Seq<char>>) -> RunView {
    match outcome {
        Ok(o) => RunView {
            next: r.next + 1,
            input: o,
            results: r.results.push((r.step_ids[r.next as int], o)),
            ..r
        },
        Err(e) => RunView { failure: Some(e), ..r },
    }
}

/// The run after its steps produced `outs` in turn; outcomes past the end
/// of the run or past a failure are never asked for.
pub open spec fn run_advance_all(r: RunView, outs: Seq<Result<Seq<char>, Seq<char>>>) -> RunView
    decreases outs.len(),
{
    if outs.len() == 0 || !run_pending(r) {
        r
    } else {
        run_advance_all(run_advance(r, outs[0]), outs.drop_first())
    }
}

/// What finishing a run returns: the last output, or the first error.
pub open spec fn run_result(r: RunView) -> Result<Seq<char>, Seq<char>> {
    match r.failure {
        Some(e) => Err(e),
        None => Ok(r.input),
    }
}

/// A workflow being executed, one step at a time.
pub struct WorkflowRun {
    workflow_id: String,
    step_ids: Vec<String>,
    next: usize,
    input: String,
    results: Vec<(String, String)>,
    failure: Option<String>,
}

impl View for WorkflowRun {
    type V = RunView;

    closed spec fn view(&self) -> RunView {
        RunView {
            workflow_id: self.workflow_id@,
            step_ids: self.step_ids@.map_values(|s: String| s@),
            next: self.next as nat,
            input: self.input@,
            results: pairs_view(self.results@),
            failure: match self.failure {
                Some(e) => Some(e@),
                None => None,
            },
        }
    }
}

impl WorkflowRun {
    pub closed spec fn wf(&self) -> bool {
        &&& self.next <= self.step_ids@.len()
        &&& self.results@.len() == self.next
    }

    /// The input for the next step, or `None` when every step has run or a
    /// step has failed.
    pub fn next_input(&self) -> (r: Option<String>)
        requires
            self.wf(),
        ensures
            run_pending(self@) ==> r is Some && r->Some_0@ == self@.input,
            !run_pending(self@) ==> r is None,
    {
        if self.failure.is_none() && self.next < self.step_ids.len() {
            Some(copy_string(&self.input))
        } else {
            None
        }
    }
}

/// `a` is a copy of `b`.
pub open spec fn same_workflow(a: Workflow, b: Workflow) -> bool {
    &&& a.id == b.id
    &&& a.name == b.name
    &&& a.description == b.description
    &&& a.status == b.status
    &&& a.steps@.len() == b.steps@.len()
    &&& forall|i: int| 0 <= i < a.steps@.len() ==> #[trigger] a.steps@[i].id == b.steps@[i].id
    &&& pairs_view(a.results@) == pairs_view(b.results@)
}

fn copy_opt(o: &Option<String>) -> (r: Option<String>)
    ensures
        r == *o,
{
    match o {
        Some(s) => Some(copy_string(s)),
        None => None,
    }
}

fn copy_step(s: &WorkflowStep) -> (r: WorkflowStep)
    ensures
        r.id == s.id,
{
    WorkflowStep {
        id: copy_string(&s.id),
        name: copy_string(&s.name),
        description: copy_string(&s.description),
        task_id: copy_opt(&s.task_id),
        dependencies: copy_strings(&s.dependencies),
        condition: copy_opt(&s.condition),
    }
}

fn copy_workflow(w: &Workflow) -> (r: Workflow)
    ensures
        same_workflow(r, *w),
{
    let mut steps: Vec<WorkflowStep> = Vec::new();
    let mut i: usize = 0;
    while i < w.steps.len()
        invariant
            i <= w.steps@.len(),
            steps@.len() == i,
            forall|j: int| 0 <= j < i ==> #[trigger] steps@[j].id == w.steps@[j].id,
        decreases w.steps@.len() - i,
    {
        steps.push(copy_step(&w.steps[i]));
        i = i + 1;
    }
    let mut results: Vec<(String, String)> = Vec::new();
    let mut j: usize = 0;
    while j < w.results.len()
        invariant
            j <= w.results@.len(),
            pairs_view(results@) =~= pairs_view(w.results@.subrange(0, j as int)),
        decreases w.results@.len() - j,
    {
        let ghost before = results@;
        results.push((copy_string(&w.results[j].0), copy_string(&w.results[j].1)));
        proof {
            assert(results@ == before.push(results@.last()));
            assert(pairs_view(results@) =~= pairs_view(before).push(
                (w.results@[j as int].0@, w.results@[j as int].1@),
            ));
            assert(w.results@.subrange(0, j + 1) =~= w.results@.subrange(0, j as int).push(
                w.results@[j as int],
            ));
            assert(pairs_view(w.results@.subrange(0, j + 1)) =~= pairs_view(
                w.results@.subrange(0, j as int),
            ).push((w.results@[j as int].0@, w.results@[j as int].1@)));
        }
        j = j + 1;
    }
    proof {
        assert(w.results@.subrange(0, j as int) =~= w.results@);
    }
    Workflow {
        id: copy_string(&w.id),
        name: copy_string(&w.name),
        description: copy_string(&w.description),
        steps,
        status: w.status,
        results,
    }
}

impl WorkflowRun {
    /// Where the next step's input goes, or `None` when no step is left to
    /// run. A caller asks the local model only for `LocalLLM`.
    pub fn next_target(&self) -> (r: Option<RouteTarget>)
        requires
            self.wf(),
        ensures
            run_pending(self@) ==> r is Some && r->Some_0@ == route_spec(self@.input).target,
            !run_pending(self@) ==> r is None,
    {
        if self.failure.is_none() && self.next < self.step_ids.len() {
            Some(IntelligentRouter::new().route_message(self.input.as_str()).target)
        } else {
            None
        }
    }
}

/// Position of a workflow with identifier `id`, or -1 when there is none.
pub open spec fn workflow_index(s: Seq<Workflow>, id: Seq<char>) -> int {
    if exists|i: int| 0 <= i < s.len() && #[trigger] s[i].id@ == id {
        choose|i: int| 0 <= i < s.len() && #[trigger] s[i].id@ == id
    } else {
        -1
    }
}

pub open spec fn workflow_ids_unique(s: Seq<Workflow>) -> bool {
    forall|i: int, j: int|
        0 <= i < s.len() && 0 <= j < s.len() && i != j ==> #[trigger] s[i].id@ != #[trigger] s[j].id@
}

/// `s1` is `s0` with the workflow at `k` changed to `w`, which keeps its
/// identifier.
pub open spec fn workflow_updated(s0: Seq<Workflow>, s1: Seq<Workflow>, k: int, w: Workflow) -> bool {
    &&& 0 <= k < s0.len()
    &&& s1 == s0.update(k, w)
    &&& w.id@ == s0[k].id@
}

proof fn lemma_workflow_index(s: Seq<Workflow>, id: Seq<char>)
    ensures
        -1 <= workflow_index(s, id) < s.len(),
        workflow_index(s, id) >= 0 ==> s[workflow_index(s, id)].id@ == id,
        workflow_index(s, id) < 0 ==> forall|i: int| 0 <= i < s.len() ==> #[trigger] s[i].id@ != id,
        workflow_ids_unique(s) ==> forall|i: int|
            0 <= i < s.len() && #[trigger] s[i].id@ == id ==> workflow_index(s, id) == i,
{
}

proof fn lemma_workflow_update(s: Seq<Workflow>, k: int, w: Workflow)
    requires
        workflow_ids_unique(s),
        0 <= k < s.len(),
        s[k].id@ == w.id@,
    ensures
        workflow_ids_unique(s.update(k, w)),
{
    let s1 = s.update(k, w);
    assert forall|a: int, b: int|
        0 <= a < s1.len() && 0 <= b < s1.len() && a != b implies #[trigger] s1[a].id@
        != #[trigger] s1[b].id@ by {
        assert(s1[a].id@ == s[a].id@);
        assert(s1[b].id@ == s[b].id@);
    }
}

proof fn lemma_workflow_push(s: Seq<Workflow>, w: Workflow)
    requires
        workflow_ids_unique(s),
        forall|i: int| 0 <= i < s.len() ==> #[trigger] s[i].id@ != w.id@,
    ensures
        workflow_ids_unique(s.push(w)),
{
    let s1 = s.push(w);
    assert forall|a: int, b: int|
        0 <= a < s1.len() && 0 <= b < s1.len() && a != b implies #[trigger] s1[a].id@
        != #[trigger] s1[b].id@ by {
        if a < s.len() {
            assert(s1[a] == s[a]);
        }
        if b < s.len() {
            assert(s1[b] == s[b]);
        }
    }
}

/// The run driven to its end with the built-in replies: every step gets
/// the reply that orchestration gives without a model behind it.
pub open spec fn builtin_run(r: RunView) -> RunView
    decreases r.step_ids.len() - r.next,
{
    if run_pending(r) {
        builtin_run(run_advance(r, task_outcome(r.input, Ok("LLM处理结果: "@ + r.input))))
    } else {
        r
    }
}

proof fn lemma_builtin_run_succeeds(r: RunView)
    requires
        r.failure is None,
    ensures
        builtin_run(r).failure is None,
    decreases r.step_ids.len() - r.next,
{
    if run_pending(r) {
        let target = route_spec(r.input).target;
        let next = run_advance(r, task_outcome(r.input, Ok("LLM处理结果: "@ + r.input)));
        assert(task_outcome(r.input, Ok("LLM处理结果: "@ + r.input)) is Ok);
        lemma_builtin_run_succeeds(next);
    }
}

/// Holds workflow definitions and runs them through an orchestration engine.
pub struct WorkflowEngine {
    orchestration_engine: OrchestrationEngine,
    workflows: Vec<Workflow>,
}

impl WorkflowEngine {
    /// The registered workflows.
    pub closed spec fn workflows(&self) -> Seq<Workflow> {
        self.workflows@
    }

    /// The engine that runs each step.
    pub closed spec fn orchestration(&self) -> OrchestrationEngine {
        self.orchestration_engine
    }

    pub open spec fn wf(&self) -> bool {
        workflow_ids_unique(self.workflows()) && self.orchestration().wf()
    }

    pub fn new(orchestration_engine: OrchestrationEngine) -> (r: Self)
        requires
            orchestration_engine.wf(),
        ensures
            r.wf(),
            r.workflows().len() == 0,
            r.orchestration() == orchestration_engine,
    {
        WorkflowEngine { orchestration_engine, workflows: Vec::new() }
    }

    fn find(&self, workflow_id: &str) -> (r: Option<usize>)
        requires
            self.wf(),
        ensures
            match r {
                Some(i) => i as int == workflow_index(self.workflows(), workflow_id@),
                None => workflow_index(self.workflows(), workflow_id@) < 0,
            },
    {
        proof {
            lemma_workflow_index(self.workflows@, workflow_id@);
        }
        let mut i: usize = 0;
        while i < self.workflows.len()
            invariant
                self.wf(),
                i <= self.workflows@.len(),
                forall|j: int| 0 <= j < i ==> #[trigger] self.workflows@[j].id@ != workflow_id@,
            decreases self.workflows@.len() - i,
        {
            if str_eq(workflow_id, &self.workflows[i].id) {
                proof {
                    assert(self.workflows@[i as int].id@ == workflow_id@);
                    lemma_workflow_index(self.workflows@, workflow_id@);
                }
                return Some(i);
            }
            i = i + 1;
        }
        None
    }

    /// Stores `workflow` under its identifier, replacing any earlier one.
    pub fn register_workflow(&mut self, workflow: Workflow) -> (r: Result<(), String>)
        requires
            old(self).wf(),
        ensures
            r is Ok,
            final(self).wf(),
            final(self).orchestration() == old(self).orchestration(),
            ({
                let k = workflow_index(old(self).workflows(), workflow.id@);
                if k >= 0 {
                    final(self).workflows() == old(self).workflows().update(k, workflow)
                } else {
                    final(self).workflows() == old(self).workflows().push(workflow)
                }
            }),
    {
        let ghost s0 = self.workflows@;
        proof {
            lemma_workflow_index(s0, workflow.id@);
        }
        match self.find(workflow.id.as_str()) {
            Some(k) => {
                proof {
                    lemma_workflow_update(s0, k as int, workflow);
                }
                self.workflows.set(k, workflow);
            },
            None => {
                proof {
                    lemma_workflow_push(s0, workflow);
                }
                self.workflows.push(workflow);
            },
        }
        Ok(())
    }

    /// Sets the status of the workflow at position `k`.
    fn set_status(&mut self, k: usize, status: WorkflowStatus)
        requires
            old(self).wf(),
            k < old(self).workflows().len(),
        ensures
            final(self).wf(),
            final(self).orchestration() == old(self).orchestration(),
            final(self).workflows() == old(self).workflows().update(
                k as int,
                Workflow { status, ..old(self).workflows()[k as int] },
            ),
    {
        let ghost s0 = self.workflows@;
        let mut w = self.workflows.remove(k);
        w.status = status;
        self.workflows.insert(k, w);
        proof {
            assert(self.workflows@ =~= s0.update(k as int, w));
            lemma_workflow_update(s0, k as int, w);
        }
    }

    /// Starts running the workflow `workflow_id` on `initial_input` and
    /// marks it Running. Fails when no such workflow exists.
    pub fn start_run(&mut self, workflow_id: &str, initial_input: &str) -> (r: Result<
        WorkflowRun,
        String,
    >)
        requires
            old(self).wf(),
        ensures
            final(self).wf(),
            final(self).orchestration() == old(self).orchestration(),
            workflow_index(old(self).workflows(), workflow_id@) < 0 ==> {
                &&& final(self).workflows() == old(self).workflows()
                &&& r is Err
                &&& r->Err_0@ == "工作流未找到"@
            },
            workflow_index(old(self).workflows(), workflow_id@) >= 0 ==> {
                let k = workflow_index(old(self).workflows(), workflow_id@);
                let w = old(self).workflows()[k];
                &&& final(self).workflows() == old(self).workflows().update(
                    k,
                    Workflow { status: WorkflowStatus::Running, ..w },
                )
                &&& r is Ok
                &&& r->Ok_0.wf()
                &&& r->Ok_0@ == run_start(workflow_id@, step_ids(w.steps@), initial_input@)
            },
    {
        match self.find(workflow_id) {
            None => Err(String::from_str("工作流未找到")),
            Some(k) => {
                let mut ids: Vec<String> = Vec::new();
                let n = self.workflows[k].steps.len();
                let mut i: usize = 0;
                while i < n
                    invariant
                        self.wf(),
                        k < self.workflows@.len(),
                        n == self.workflows@[k as int].steps@.len(),
                        i <= n,
                        ids@.len() == i,
                        forall|j: int|
                            0 <= j < i ==> #[trigger] ids@[j]@ == self.workflows@[k as int].steps@[j].id@,
                    decreases n - i,
                {
                    ids.push(copy_string(&self.workflows[k].steps[i].id));
                    i = i + 1;
                }
                let ghost steps = self.workflows@[k as int].steps@;
                self.set_status(k, WorkflowStatus::Running);
                let run = WorkflowRun {
                    workflow_id: String::from_str(workflow_id),
                    step_ids: ids,
                    next: 0,
                    input: String::from_str(initial_input),
                    results: Vec::new(),
                    failure: None,
                };
                proof {
                    assert(ids@.map_values(|s: String| s@) =~= step_ids(steps));
                    assert(run@.step_ids =~= step_ids(steps));
                    assert(run@.results =~= Seq::<(Seq<char>, Seq<char>)>::empty());
                }
                Ok(run)
            },
        }
    }

    /// Executes the next step of `run` as an orchestrated task under
    /// `task_id`, on the step's input; a message for the local model gets
    /// `llm_reply`.
    pub fn run_step(&mut self, run: &mut WorkflowRun, task_id: String, llm_reply: Result<String, String>)
        requires
            old(self).wf(),
            old(run).wf(),
            run_pending(old(run)@),
        ensures
            final(self).wf(),
            final(run).wf(),
            final(self).workflows() == old(self).workflows(),
            final(run)@ == run_advance(
                old(run)@,
                task_outcome(old(run)@.input, result_view(llm_reply)),
            ),
            replaced_or_added(
                old(self).orchestration().tasks(),
                final(self).orchestration().tasks(),
                task_id@,
            ),
            task_for(
                final(self).orchestration().tasks()[index_of(
                    final(self).orchestration().tasks(),
                    task_id@,
                )],
                task_id@,
                old(run)@.input,
            ),
            records_outcome(
                final(self).orchestration().tasks()[index_of(
                    final(self).orchestration().tasks(),
                    task_id@,
                )],
                task_outcome(old(run)@.input, result_view(llm_reply)),
            ),
    {
        let outcome = self.orchestration_engine.orchestrate_with_reply(
            task_id,
            run.input.as_str(),
            llm_reply,
        );
        let ghost r0 = run@;
        match outcome {
            Ok(o) => {
                let len = run.step_ids.len();
                proof {
                    assert(run.next < len);
                }
                let step = copy_string(&run.step_ids[run.next]);
                run.results.push((step, copy_string(&o)));
                run.input = o;
                run.next = run.next + 1;
                proof {
                    assert(run@.results =~= r0.results.push((r0.step_ids[r0.next as int], run@.input)));
                    assert(run@ == run_advance(r0, Ok(run@.input)));
                }
            },
            Err(e) => {
                run.failure = Some(e);
                proof {
                    assert(run@.step_ids =~= r0.step_ids);
                }
            },
        }
    }

    /// Ends `run`: on success the workflow is marked Completed, keeps the
    /// per-step results and the last output is returned; after a failed
    /// step it is marked Failed and the step's error is returned.
    pub fn finish_run(&mut self, run: WorkflowRun) -> (r: Result<String, String>)
        requires
            old(self).wf(),
            run.wf(),
            !run_pending(run@),
        ensures
            final(self).wf(),
            final(self).orchestration() == old(self).orchestration(),
            result_view(r) == run_result(run@),
            workflow_index(old(self).workflows(), run@.workflow_id) < 0 ==> final(self).workflows()
                == old(self).workflows(),
            workflow_index(old(self).workflows(), run@.workflow_id) >= 0 ==> {
                let k = workflow_index(old(self).workflows(), run@.workflow_id);
                let w = final(self).workflows()[k];
                &&& workflow_updated(old(self).workflows(), final(self).workflows(), k, w)
                &&& w.name == old(self).workflows()[k].name
                &&& w.steps == old(self).workflows()[k].steps
                &&& (run@.failure is None ==> w.status == WorkflowStatus::Completed && pairs_view(
                    w.results@,
                ) == run@.results)
                &&& (run@.failure is Some ==> w.status == WorkflowStatus::Failed
                    && w.results == old(self).workflows()[k].results)
            },
    {
        let ghost v = run@;
        let WorkflowRun { workflow_id, step_ids: _, next: _, input, results, failure } = run;
        match self.find(workflow_id.as_str()) {
            None => {},
            Some(k) => {
                let ghost s0 = self.workflows@;
                let mut w = self.workflows.remove(k);
                if failure.is_some() {
                    w.status = WorkflowStatus::Failed;
                    self.workflows.insert(k, w);
                } else {
                    w.status = WorkflowStatus::Completed;
                    w.results = results;
                    self.workflows.insert(k, w);
                }
                proof {
                    assert(self.workflows@ =~= s0.update(k as int, w));
                    lemma_workflow_update(s0, k as int, w);
                }
            },
        }
        match failure {
            Some(e) => Err(e),
            None => Ok(input),
        }
    }

    /// Runs every step of `workflow_id` in list order starting from
    /// `initial_input`, each step orchestrated with the built-in replies.
    /// Fails when no such workflow exists.
    pub fn execute_workflow(&mut self, workflow_id: &str, initial_input: &str) -> (r: Result<
        String,
        String,
    >)
        requires
            old(self).wf(),
        ensures
            final(self).wf(),
            workflow_index(old(self).workflows(), workflow_id@) < 0 ==> r is Err && r->Err_0@
                == "工作流未找到"@ && final(self).workflows() == old(self).workflows(),
            workflow_index(old(self).workflows(), workflow_id@) >= 0 ==> {
                let k = workflow_index(old(self).workflows(), workflow_id@);
                let w = old(self).workflows()[k];
                let done = builtin_run(run_start(workflow_id@, step_ids(w.steps@), initial_input@));
                let w1 = final(self).workflows()[k];
                &&& done.failure is None
                &&& result_view(r) == Ok::<Seq<char>, Seq<char>>(done.input)
                &&& final(self).workflows().len() == old(self).workflows().len()
                &&& forall|i: int|
                    0 <= i < old(self).workflows().len() && i != k ==> #[trigger] final(self).workflows()[i] == old(self).workflows()[i]
                &&& w1.id@ == w.id@
                &&& w1.name == w.name
                &&& w1.steps == w.steps
                &&& w1.status == WorkflowStatus::Completed
                &&& pairs_view(w1.results@) == done.results
            },
    {
        let ghost w0 = self.workflows@;
        let mut run = match self.start_run(workflow_id, initial_input) {
            Ok(run) => run,
            Err(e) => {
                return Err(e);
            },
        };
        let ghost start = run@;
        let ghost w1 = self.workflows@;
        proof {
            lemma_builtin_run_succeeds(start);
        }
        loop
            invariant
                self.wf(),
                run.wf(),
                builtin_run(run@) == builtin_run(start),
                run@.workflow_id == start.workflow_id,
                self.workflows@ == w1,
            ensures
                !run_pending(run@),
                builtin_run(run@) == builtin_run(start),
            decreases run@.step_ids.len() - run@.next + (if run@.failure is None {
                1int
            } else {
                0int
            }),
        {
            match run.next_input() {
                None => {
                    break ;
                },
                Some(input) => {
                    let reply = String::from_str("LLM处理结果: ").concat(input.as_str());
                    let task_id = self.orchestration_engine.new_task_id();
                    self.run_step(&mut run, task_id, Ok(reply));
                },
            }
        }
        proof {
            let k = workflow_index(w0, workflow_id@);
            lemma_workflow_index(w0, workflow_id@);
            lemma_workflow_index(w1, workflow_id@);
            assert(w1[k].id@ == workflow_id@);
        }
        self.finish_run(run)
    }

    /// Status of the workflow `workflow_id`, if it exists.
    pub fn get_workflow_status(&self, workflow_id: &str) -> (r: Option<WorkflowStatus>)
        requires
            self.wf(),
        ensures
            workflow_index(self.workflows(), workflow_id@) < 0 ==> r is None,
            workflow_index(self.workflows(), workflow_id@) >= 0 ==> r == Some(
                self.workflows()[workflow_index(self.workflows(), workflow_id@)].status,
            ),
    {
        match self.find(workflow_id) {
            Some(k) => Some(self.workflows[k].status),
            None => None,
        }
    }

    /// A copy of every registered workflow.
    pub fn get_all_workflows(&self) -> (r: Vec<Workflow>)
        ensures
            r@.len() == self.workflows().len(),
            forall|i: int|
                0 <= i < r@.len() ==> same_workflow(#[trigger] r@[i], self.workflows()[i]),
    {
        let mut out: Vec<Workflow> = Vec::new();
        let mut i: usize = 0;
        while i < self.workflows.len()
            invariant
                i <= self.workflows@.len(),
                out@.len() == i,
                forall|j: int| 0 <= j < i ==> same_workflow(#[trigger] out@[j], self.workflows@[j]),
            decreases self.workflows@.len() - i,
        {
            out.push(copy_workflow(&self.workflows[i]));
            i = i + 1;
        }
        out
    }

    /// A task identifier that the orchestration engine has not used.
    pub fn new_task_id(&self) -> (r: String)
        requires
            self.wf(),
        ensures
            index_of(self.orchestration().tasks(), r@) < 0,
    {
        self.orchestration_engine.new_task_id()
    }

    /// How many workflows are registered.
    pub fn workflow_count(&self) -> (r: usize)
        ensures
            r == self.workflows().len(),
    {
        self.workflows.len()
    }
}

proof fn lemma_all_ok(r: RunView, outs: Seq<Result<Seq<char>, Seq<char>>>)
    requires
        r.failure is None,
        r.next + outs.len() <= r.step_ids.len(),
        forall|i: int| 0 <= i < outs.len() ==> #[trigger] outs[i] is Ok,
    ensures
        ({
            let f = run_advance_all(r, outs);
            &&& f.workflow_id == r.workflow_id
            &&& f.step_ids == r.step_ids
            &&& f.failure is None
            &&& f.next == r.next + outs.len()
            &&& f.input == if outs.len() == 0 {
                r.input
            } else {
                outs[outs.len() - 1]->Ok_0
            }
            &&& f.results =~= r.results + Seq::new(
                outs.len(),
                |i: int| (r.step_ids[r.next + i], outs[i]->Ok_0),
            )
        }),
    decreases outs.len(),
{
    if outs.len() > 0 {
        let r1 = run_advance(r, outs[0]);
        let rest = outs.drop_first();
        assert forall|i: int| 0 <= i < rest.len() implies #[trigger] rest[i] is Ok by {
            assert(rest[i] == outs[i + 1]);
        }
        lemma_all_ok(r1, rest);
    }
}

proof fn lemma_fail_at(r: RunView, outs: Seq<Result<Seq<char>, Seq<char>>>, k: int)
    requires
        r.failure is None,
        0 <= k < outs.len(),
        r.next + k < r.step_ids.len(),
        forall|i: int| 0 <= i < k ==> #[trigger] outs[i] is Ok,
        outs[k] is Err,
    ensures
        ({
            let f = run_advance_all(r, outs);
            &&& f.failure == Some(outs[k]->Err_0)
            &&& f.next == r.next + k
            &&& f.results.len() == r.results.len() + k
        }),
    decreases outs.len(),
{
    let r1 = run_advance(r, outs[0]);
    let rest = outs.drop_first();
    assert(run_pending(r));
    assert(run_advance_all(r, outs) == run_advance_all(r1, rest));
    if k > 0 {
        assert forall|i: int| 0 <= i < k - 1 implies #[trigger] rest[i] is Ok by {
            assert(rest[i] == outs[i + 1]);
        }
        assert(outs[0] is Ok);
        assert(rest[k - 1] == outs[k]);
        lemma_fail_at(r1, rest, k - 1);
    } else {
        assert(!run_pending(r1));
        assert(run_advance_all(r1, rest) == r1);
    }
}

/// In a run whose every step succeeds, the input of each step after the
/// first is the output of the step before it; the run ends with one result
/// per step, keyed by the step's identifier, and returns the output of the
/// last step.
pub proof fn lemma_outputs_feed_next_inputs(
    workflow_id: Seq<char>,
    ids: Seq<Seq<char>>,
    input: Seq<char>,
    outs: Seq<Result<Seq<char>, Seq<char>>>,
)
    requires
        ids.len() > 0,
        outs.len() == ids.len(),
        forall|i: int| 0 <= i < outs.len() ==> #[trigger] outs[i] is Ok,
    ensures
        forall|i: int|
            0 < i < ids.len() ==> #[trigger] run_advance_all(
                run_start(workflow_id, ids, input),
                outs.take(i),
            ).input == outs[i - 1]->Ok_0,
        run_advance_all(run_start(workflow_id, ids, input), outs).results.len() == ids.len(),
        forall|i: int|
            0 <= i < ids.len() ==> #[trigger] run_advance_all(
                run_start(workflow_id, ids, input),
                outs,
            ).results[i] == (ids[i], outs[i]->Ok_0),
        run_result(run_advance_all(run_start(workflow_id, ids, input), outs)) == Ok::<
            Seq<char>,
            Seq<char>,
        >(outs[outs.len() - 1]->Ok_0),
{
    let r0 = run_start(workflow_id, ids, input);
    lemma_all_ok(r0, outs);
    assert forall|i: int| 0 < i < ids.len() implies #[trigger] run_advance_all(
        r0,
        outs.take(i),
    ).input == outs[i - 1]->Ok_0 by {
        let t = outs.take(i);
        assert forall|j: int| 0 <= j < t.len() implies #[trigger] t[j] is Ok by {
            assert(t[j] == outs[j]);
        }
        lemma_all_ok(r0, t);
    }
}

/// When a step fails, no later step runs: the run stops at that step, keeps
/// the results of the steps before it only, and returns the step's error.
pub proof fn lemma_failed_step_stops_run(
    workflow_id: Seq<char>,
    ids: Seq<Seq<char>>,
    input: Seq<char>,
    outs: Seq<Result<Seq<char>, Seq<char>>>,
    k: int,
)
    requires
        0 <= k < ids.len(),
        k < outs.len(),
        forall|i: int| 0 <= i < k ==> #[trigger] outs[i] is Ok,
        outs[k] is Err,
    ensures
        !run_pending(run_advance_all(run_start(workflow_id, ids, input), outs)),
        run_advance_all(run_start(workflow_id, ids, input), outs).next == k,
        run_advance_all(run_start(workflow_id, ids, input), outs).results.len() == k,
        run_result(run_advance_all(run_start(workflow_id, ids, input), outs)) == Err::<
            Seq<char>,
            Seq<char>,
        >(outs[k]->Err_0),
{
    lemma_fail_at(run_start(workflow_id, ids, input), outs, k);
}

} // verus!
