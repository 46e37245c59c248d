//! Orchestration engine: turns each message into a tracked task, routes it
//! and records its outcome.
use vstd::prelude::*;
use crate::ids::fresh_id;
use crate::router::{IntelligentRouter, RouteTarget, RouteTargetView, route_spec};
use crate::text::{copy_string, copy_strings, str_eq};

verus! {

/// Lifecycle of a task: Pending, then Running, then Completed or Failed.
#[derive(Debug, Clone, Copy, PartialEq, Eq, Structural)]
pub enum OrchestrationTaskStatus {
    Pending,
    Running,
    Completed,
    Failed,
}

/// One tracked unit of work produced from a single routing decision.
#[derive(Debug, Clone)]
pub struct OrchestrationTask {
    pub id: String,
    pub name: String,
    pub description: String,
    pub target: RouteTarget,
    pub status: OrchestrationTaskStatus,
    pub dependencies: Vec<String>,
    pub result: Option<String>,
}

pub open spec fn opt_view(o: Option<String>) -> Option<Seq<char>> {
    match o {
        Some(s) => Some(s@),
        None => None,
    }
}

pub open spec fn result_view(r: Result<String, String>) -> Result<Seq<char>, Seq<char>> {
    match r {
        Ok(s) => Ok(s@),
        Err(e) => Err(e@),
    }
}

/// Position of a task with identifier `id`, or -1 when there is none.
pub open spec fn index_of(s: Seq<OrchestrationTask>, id: Seq<char>) -> int {
    if exists|i: int| 0 <= i < s.len() && #[trigger] s[i].id@ == id {
        choose|i: int| 0 <= i < s.len() && #[trigger] s[i].id@ == id
    } else {
        -1
    }
}

/// No two tasks share an identifier.
pub open spec fn ids_unique(s: Seq<OrchestrationTask>) -> bool {
    forall|i: int, j: int|
        0 <= i < s.len() && 0 <= j < s.len() && i != j ==> #[trigger] s[i].id@ != #[trigger] s[j].id@
}

/// `s1` is `s0` with the entry for `id` replaced, or with one appended
/// when `s0` has none.
pub open spec fn replaced_or_added(
    s0: Seq<OrchestrationTask>,
    s1: Seq<OrchestrationTask>,
    id: Seq<char>,
) -> bool {
    let k = index_of(s0, id);
    if k >= 0 {
        s1.len() == s0.len() && index_of(s1, id) == k && forall|i: int|
            0 <= i < s0.len() && i != k ==> #[trigger] s1[i] == s0[i]
    } else {
        s1.len() == s0.len() + 1 && index_of(s1, id) == s0.len() && forall|i: int|
            0 <= i < s0.len() ==> #[trigger] s1[i] == s0[i]
    }
}

/// The reply that stands in for remote dispatch, and the built-in reply
/// of the local model.
pub open spec fn stub_reply(target: RouteTargetView, message: Seq<char>) -> Seq<char> {
    match target {
        RouteTargetView::LocalLLM => "LLM处理结果: "@ + message,
        RouteTargetView::A2AAgent(n) => "A2A智能体 "@ + n + " 处理结果: "@ + message,
        RouteTargetView::MCPTool(n) => "MCP工具 "@ + n + " 执行结果: "@ + message,
    }
}

/// The outcome of a task for `message`, given what the local model replied.
pub open spec fn task_outcome(message: Seq<char>, llm_reply: Result<Seq<char>, Seq<char>>) -> Result<
    Seq<char>,
    Seq<char>,
> {
    let target = route_spec(message).target;
    if target is LocalLLM {
        llm_reply
    } else {
        Ok(stub_reply(target, message))
    }
}

/// `t` is the task created for `message` under identifier `id`, before its
/// status and result are set.
pub open spec fn task_for(t: OrchestrationTask, id: Seq<char>, message: Seq<char>) -> bool {
    let d = route_spec(message);
    &&& t.id@ == id
    &&& t.name@ == "任务: "@ + message
    &&& t.description@ == d.reasoning
    &&& t.target@ == d.target
    &&& t.dependencies@.len() == 0
}

/// `t` records `outcome`: Completed with the reply, or Failed with the error text.
pub open spec fn records_outcome(t: OrchestrationTask, outcome: Result<Seq<char>, Seq<char>>) -> bool {
    match outcome {
        Ok(text) => t.status == OrchestrationTaskStatus::Completed && opt_view(t.result) == Some(
            text,
        ),
        Err(e) => t.status == OrchestrationTaskStatus::Failed && opt_view(t.result) == Some(e),
    }
}

/// `a` and `b` are the same task, whatever their status and result.
pub open spec fn same_identity(a: OrchestrationTask, b: OrchestrationTask) -> bool {
    &&& a.id == b.id
    &&& a.name == b.name
    &&& a.description == b.description
    &&& a.target == b.target
    &&& a.dependencies@ == b.dependencies@
}

fn copy_target(t: &RouteTarget) -> (r: RouteTarget)
    ensures
        r == *t,
{
    match t {
        RouteTarget::LocalLLM => RouteTarget::LocalLLM,
        RouteTarget::A2AAgent(n) => RouteTarget::A2AAgent(copy_string(n)),
        RouteTarget::MCPTool(n) => RouteTarget::MCPTool(copy_string(n)),
    }
}

fn copy_opt_string(o: &Option<String>) -> (r: Option<String>)
    ensures
        r == *o,
{
    match o {
        Some(s) => Some(copy_string(s)),
        None => None,
    }
}

fn copy_task(t: &OrchestrationTask) -> (r: OrchestrationTask)
    ensures
        r.id == t.id,
        r.name == t.name,
        r.description == t.description,
        r.target == t.target,
        r.status == t.status,
        r.dependencies@ == t.dependencies@,
        r.result == t.result,
{
    OrchestrationTask {
        id: copy_string(&t.id),
        name: copy_string(&t.name),
        description: copy_string(&t.description),
        target: copy_target(&t.target),
        status: t.status,
        dependencies: copy_strings(&t.dependencies),
        result: copy_opt_string(&t.result),
    }
}

/// Text handed back for a target without a real backend behind it.
pub fn stub_reply_for(target: &RouteTarget, message: &str) -> (r: String)
    ensures
        r@ == stub_reply(target@, message@),
{
    match target {
        RouteTarget::LocalLLM => String::from_str("LLM处理结果: ").concat(message),
        RouteTarget::A2AAgent(n) => String::from_str("A2A智能体 ").concat(n.as_str()).concat(
            " 处理结果: ",
        ).concat(message),
        RouteTarget::MCPTool(n) => String::from_str("MCP工具 ").concat(n.as_str()).concat(
            " 执行结果: ",
        ).concat(message),
    }
}

proof fn lemma_index_of_props(s: Seq<OrchestrationTask>, id: Seq<char>)
    ensures
        -1 <= index_of(s, id) < s.len(),
        index_of(s, id) >= 0 ==> s[index_of(s, id)].id@ == id,
        index_of(s, id) < 0 ==> forall|i: int| 0 <= i < s.len() ==> #[trigger] s[i].id@ != id,
        ids_unique(s) ==> forall|i: int|
            0 <= i < s.len() && #[trigger] s[i].id@ == id ==> index_of(s, id) == i,
{
}

proof fn lemma_unique_update(s: Seq<OrchestrationTask>, k: int, t: OrchestrationTask)
    requires
        ids_unique(s),
        0 <= k < s.len(),
        s[k].id@ == t.id@,
    ensures
        ids_unique(s.update(k, t)),
{
    let s1 = s.update(k, t);
    assert forall|a: int, b: int|
        0 <= a < s1.len() && 0 <= b < s1.len() && a != b implies #[trigger] s1[a].id@
        != #[trigger] s1[b].id@ by {
        assert(s1[a].id@ == s[a].id@);
        assert(s1[b].id@ == s[b].id@);
    }
}

proof fn lemma_unique_push(s: Seq<OrchestrationTask>, t: OrchestrationTask)
    requires
        ids_unique(s),
        forall|i: int| 0 <= i < s.len() ==> #[trigger] s[i].id@ != t.id@,
    ensures
        ids_unique(s.push(t)),
{
    let s1 = s.push(t);
    assert forall|a: int, b: int|
        0 <= a < s1.len() && 0 <= b < s1.len() && a != b implies #[trigger] s1[a].id@
        != #[trigger] s1[b].id@ by {
        if a < s.len() {
            assert(s1[a] == s[a]);
        }
        if b < s.len() {
            assert(s1[b] == s[b]);
        }
    }
}

/// Tracks every task it has created; nothing is evicted.
pub struct OrchestrationEngine {
    router: IntelligentRouter,
    tasks: Vec<OrchestrationTask>,
}

impl OrchestrationEngine {
    /// The task registry, in order of creation.
    pub closed spec fn tasks(&self) -> Seq<OrchestrationTask> {
        self.tasks@
    }

    pub open spec fn wf(&self) -> bool {
        ids_unique(self.tasks())
    }

    pub fn new(router: IntelligentRouter) -> (r: Self)
        ensures
            r.wf(),
            r.tasks().len() == 0,
    {
        OrchestrationEngine { router, tasks: Vec::new() }
    }

    fn find(&self, task_id: &str) -> (r: Option<usize>)
        requires
            self.wf(),
        ensures
            match r {
                Some(i) => i as int == index_of(self.tasks(), task_id@),
                None => index_of(self.tasks(), task_id@) < 0,
            },
    {
        proof {
            lemma_index_of_props(self.tasks@, task_id@);
        }
        let mut i: usize = 0;
        while i < self.tasks.len()
            invariant
                self.wf(),
                i <= self.tasks@.len(),
                forall|j: int| 0 <= j < i ==> #[trigger] self.tasks@[j].id@ != task_id@,
            decreases self.tasks@.len() - i,
        {
            if str_eq(task_id, &self.tasks[i].id) {
                proof {
                    assert(self.tasks@[i as int].id@ == task_id@);
                    lemma_index_of_props(self.tasks@, task_id@);
                }
                return Some(i);
            }
            i = i + 1;
        }
        None
    }

    /// Stores `task`, replacing an earlier task with the same identifier.
    fn register(&mut self, task: OrchestrationTask)
        requires
            old(self).wf(),
        ensures
            final(self).wf(),
            replaced_or_added(old(self).tasks(), final(self).tasks(), task.id@),
            final(self).tasks()[index_of(final(self).tasks(), task.id@)] == task,
    {
        let ghost s0 = self.tasks@;
        let ghost id = task.id@;
        proof {
            lemma_index_of_props(s0, id);
        }
        match self.find(task.id.as_str()) {
            Some(i) => {
                self.tasks.set(i, task);
                proof {
                    lemma_unique_update(s0, i as int, task);
                    assert(self.tasks@ == s0.update(i as int, task));
                    lemma_index_of_props(self.tasks@, id);
                    assert(self.tasks@[i as int].id@ == id);
                }
            },
            None => {
                self.tasks.push(task);
                proof {
                    lemma_unique_push(s0, task);
                    assert(self.tasks@ == s0.push(task));
                    lemma_index_of_props(self.tasks@, id);
                    assert(self.tasks@[s0.len() as int].id@ == id);
                }
            },
        }
    }

    /// Routes `message`, registers a task for it under `task_id` and moves
    /// the task to Running. Returns where the message is to go.
    pub fn submit(&mut self, task_id: String, message: &str) -> (r: RouteTarget)
        requires
            old(self).wf(),
        ensures
            final(self).wf(),
            r@ == route_spec(message@).target,
            replaced_or_added(old(self).tasks(), final(self).tasks(), task_id@),
            task_for(final(self).tasks()[index_of(final(self).tasks(), task_id@)], task_id@, message@),
            final(self).tasks()[index_of(final(self).tasks(), task_id@)].status
                == OrchestrationTaskStatus::Running,
            final(self).tasks()[index_of(final(self).tasks(), task_id@)].result is None,
    {
        let decision = self.router.route_message(message);
        let target = copy_target(&decision.target);
        let mut task = OrchestrationTask {
            id: task_id,
            name: String::from_str("任务: ").concat(message),
            description: decision.reasoning,
            target: decision.target,
            status: OrchestrationTaskStatus::Pending,
            dependencies: Vec::new(),
            result: None,
        };
        task.status = OrchestrationTaskStatus::Running;
        self.register(task);
        target
    }

    /// Records the outcome of the task `task_id`: Completed with the reply,
    /// or Failed with the error text. Fails when no such task exists.
    pub fn complete_task(&mut self, task_id: &str, outcome: Result<String, String>) -> (r: Result<
        String,
        String,
    >)
        requires
            old(self).wf(),
        ensures
            final(self).wf(),
            index_of(old(self).tasks(), task_id@) < 0 ==> final(self).tasks() == old(self).tasks()
                && result_view(r) == Err::<Seq<char>, Seq<char>>("任务未找到"@),
            index_of(old(self).tasks(), task_id@) >= 0 ==> {
                let k = index_of(old(self).tasks(), task_id@);
                &&& r == outcome
                &&& final(self).tasks().len() == old(self).tasks().len()
                &&& index_of(final(self).tasks(), task_id@) == k
                &&& same_identity(final(self).tasks()[k], old(self).tasks()[k])
                &&& records_outcome(final(self).tasks()[k], result_view(outcome))
                &&& forall|i: int|
                    0 <= i < old(self).tasks().len() && i != k ==> #[trigger] final(self).tasks()[i]
                        == old(self).tasks()[i]
            },
    {
        let ghost s0 = self.tasks@;
        match self.find(task_id) {
            None => Err(String::from_str("任务未找到")),
            Some(k) => {
                let mut t = copy_task(&self.tasks[k]);
                let r = match outcome {
                    Ok(text) => {
                        t.status = OrchestrationTaskStatus::Completed;
                        t.result = Some(copy_string(&text));
                        Ok(text)
                    },
                    Err(e) => {
                        t.status = OrchestrationTaskStatus::Failed;
                        t.result = Some(copy_string(&e));
                        Err(e)
                    },
                };
                self.tasks.set(k, t);
                proof {
                    lemma_index_of_props(s0, task_id@);
                    lemma_unique_update(s0, k as int, t);
                    assert(self.tasks@ == s0.update(k as int, t));
                    lemma_index_of_props(self.tasks@, task_id@);
                    assert(self.tasks@[k as int].id@ == task_id@);
                }
                r
            },
        }
    }

    /// Runs one message through the whole task lifecycle under `task_id`.
    /// A message for the local model gets `llm_reply`; one for a remote
    /// target gets the stand-in reply.
    pub fn orchestrate_with_reply(
        &mut self,
        task_id: String,
        message: &str,
        llm_reply: Result<String, String>,
    ) -> (r: Result<String, String>)
        requires
            old(self).wf(),
        ensures
            final(self).wf(),
            result_view(r) == task_outcome(message@, result_view(llm_reply)),
            replaced_or_added(old(self).tasks(), final(self).tasks(), task_id@),
            task_for(final(self).tasks()[index_of(final(self).tasks(), task_id@)], task_id@, message@),
            records_outcome(
                final(self).tasks()[index_of(final(self).tasks(), task_id@)],
                task_outcome(message@, result_view(llm_reply)),
            ),
    {
        let id = copy_string(&task_id);
        let ghost s0 = self.tasks@;
        let target = self.submit(task_id, message);
        let ghost s1 = self.tasks@;
        let outcome = match target {
            RouteTarget::LocalLLM => llm_reply,
            _ => Ok(stub_reply_for(&target, message)),
        };
        let r = self.complete_task(id.as_str(), outcome);
        proof {
            lemma_index_of_props(s1, id@);
            let k = index_of(s1, id@);
            if index_of(s0, id@) >= 0 {
                assert forall|i: int| 0 <= i < s0.len() && i != k implies #[trigger] self.tasks@[i]
                    == s0[i] by {
                    assert(self.tasks@[i] == s1[i]);
                }
            } else {
                assert forall|i: int| 0 <= i < s0.len() implies #[trigger] self.tasks@[i]
                    == s0[i] by {
                    assert(self.tasks@[i] == s1[i]);
                }
            }
        }
        r
    }

    /// An identifier that no registered task has: a fresh random one,
    /// lengthened past every registered identifier in the unlikely case
    /// that it is taken.
    pub fn new_task_id(&self) -> (r: String)
        requires
            self.wf(),
        ensures
            index_of(self.tasks(), r@) < 0,
    {
        let mut id = fresh_id();
        if self.find(id.as_str()).is_none() {
            return id;
        }
        let mut longest: usize = 0;
        let mut i: usize = 0;
        while i < self.tasks.len()
            invariant
                i <= self.tasks@.len(),
                forall|j: int| 0 <= j < i ==> (#[trigger] self.tasks@[j]).id@.len() <= longest,
            decreases self.tasks@.len() - i,
        {
            let n = self.tasks[i].id.as_str().unicode_len();
            if n > longest {
                longest = n;
            }
            i = i + 1;
        }
        proof {
            reveal_strlit("-");
        }
        while id.as_str().unicode_len() <= longest
            invariant
                "-"@.len() == 1,
                forall|j: int|
                    0 <= j < self.tasks@.len() ==> (#[trigger] self.tasks@[j]).id@.len() <= longest,
            decreases longest + 1 - id@.len(),
        {
            id.append("-");
        }
        proof {
            lemma_index_of_props(self.tasks@, id@);
            assert forall|j: int| 0 <= j < self.tasks@.len() implies #[trigger] self.tasks@[j].id@
                != id@ by {
                assert(self.tasks@[j].id@.len() <= longest);
            }
        }
        id
    }

    /// Runs one message through the whole task lifecycle under a new
    /// identifier, with the built-in reply of the local model. The task is
    /// appended; every earlier task stays as it was.
    pub fn orchestrate(&mut self, message: &str) -> (r: Result<String, String>)
        requires
            old(self).wf(),
        ensures
            final(self).wf(),
            result_view(r) == Ok::<Seq<char>, Seq<char>>(
                stub_reply(route_spec(message@).target, message@),
            ),
            final(self).tasks().len() == old(self).tasks().len() + 1,
            forall|i: int|
                0 <= i < old(self).tasks().len() ==> #[trigger] final(self).tasks()[i] == old(self).tasks()[i],
            index_of(old(self).tasks(), final(self).tasks().last().id@) < 0,
            task_for(final(self).tasks().last(), final(self).tasks().last().id@, message@),
            records_outcome(final(self).tasks().last(), result_view(r)),
    {
        let task_id = self.new_task_id();
        let ghost id = task_id@;
        let reply = String::from_str("LLM处理结果: ").concat(message);
        let r = self.orchestrate_with_reply(task_id, message, Ok(reply));
        proof {
            lemma_index_of_props(self.tasks(), id);
            assert(index_of(self.tasks(), id) == old(self).tasks().len());
        }
        r
    }

    /// A copy of every task, in order of creation.
    pub fn get_all_tasks(&self) -> (r: Vec<OrchestrationTask>)
        ensures
            r@.len() == self.tasks().len(),
            forall|i: int| 0 <= i < r@.len() ==> same_identity(#[trigger] r@[i], self.tasks()[i])
                && r@[i].status == self.tasks()[i].status && r@[i].result == self.tasks()[i].result,
    {
        let mut out: Vec<OrchestrationTask> = Vec::new();
        let mut i: usize = 0;
        while i < self.tasks.len()
            invariant
                i <= self.tasks@.len(),
                out@.len() == i,
                forall|j: int| 0 <= j < i ==> same_identity(#[trigger] out@[j], self.tasks@[j])
                    && out@[j].status == self.tasks@[j].status && out@[j].result
                    == self.tasks@[j].result,
            decreases self.tasks@.len() - i,
        {
            out.push(copy_task(&self.tasks[i]));
            i = i + 1;
        }
        out
    }

    /// Status of the task `task_id`, if it exists.
    pub fn get_task_status(&self, task_id: &str) -> (r: Option<OrchestrationTaskStatus>)
        requires
            self.wf(),
        ensures
            index_of(self.tasks(), task_id@) < 0 ==> r is None,
            index_of(self.tasks(), task_id@) >= 0 ==> r == Some(
                self.tasks()[index_of(self.tasks(), task_id@)].status,
            ),
    {
        match self.find(task_id) {
            Some(k) => Some(self.tasks[k].status),
            None => None,
        }
    }
}

} // verus!
