//! Tool execution pipeline: input validation, permission check, a bounded
//! concurrency gate, a time-to-live result cache, invocation and result
//! validation, in that order.
//!
//! The tools themselves run outside: [`EnhancedToolExecutionEngine::start_execution`]
//! takes a call through the phases up to invocation and either answers it or
//! hands back a [`PendingExecution`] holding one execution slot; the caller
//! runs the tool and reports to [`EnhancedToolExecutionEngine::finish`],
//! which validates and caches the result and frees the slot. Times are
//! milliseconds on a monotonic clock.
use vstd::prelude::*;
use serde_json::Value;
use crate::ids::fresh_id;
use crate::json::{json_is_null, json_is_object, json_text, json_text_of};
use crate::text::{contains_string, copy_string, has_substring, str_contains, str_eq};

verus! {

/// Why a tool call failed.
#[derive(Debug, Clone, PartialEq, Eq)]
pub enum ToolError {
    ExecutionFailed(String),
    ToolNotFound(String),
    ValidationFailed(String),
    PermissionDenied(String),
    ConcurrencyLimitExceeded(String),
    CacheError(String),
}

/// The text carried by an error.
pub open spec fn error_message(e: ToolError) -> Seq<char> {
    match e {
        ToolError::ExecutionFailed(m) => m@,
        ToolError::ToolNotFound(m) => m@,
        ToolError::ValidationFailed(m) => m@,
        ToolError::PermissionDenied(m) => m@,
        ToolError::ConcurrencyLimitExceeded(m) => m@,
        ToolError::CacheError(m) => m@,
    }
}

impl ToolError {
    /// The text carried by the error.
    pub fn message(&self) -> (r: String)
        ensures
            r@ == error_message(*self),
    {
        match self {
            ToolError::ExecutionFailed(m) => copy_string(m),
            ToolError::ToolNotFound(m) => copy_string(m),
            ToolError::ValidationFailed(m) => copy_string(m),
            ToolError::PermissionDenied(m) => copy_string(m),
            ToolError::ConcurrencyLimitExceeded(m) => copy_string(m),
            ToolError::CacheError(m) => copy_string(m),
        }
    }
}

/// Phases of a tool execution.
#[derive(Debug, Clone, Copy, PartialEq, Eq, Structural)]
pub enum ExecutionPhase {
    Validation,
    PermissionCheck,
    ConcurrencyMgmt,
    Execution,
    ResultValidation,
    CacheManagement,
    Cleanup,
}

/// State of a tool execution.
#[derive(Debug, Clone, PartialEq, Eq)]
pub enum ExecutionStatus {
    Pending,
    Running(ExecutionPhase),
    Completed,
    Failed(String),
}

/// Who is calling and under which limits. `cache_ttl_ms` is in
/// milliseconds.
#[derive(Debug, Clone)]
pub struct ExecutionContext {
    pub user_id: String,
    pub session_id: String,
    pub permissions: Vec<String>,
    pub max_concurrent: usize,
    pub cache_ttl_ms: u64,
}

/// The outcome of one tool call. `execution_time_ms` is in milliseconds.
#[derive(Debug, Clone)]
pub struct ExecutionResult {
    pub id: String,
    pub tool_name: String,
    pub status: ExecutionStatus,
    pub result: Option<Value>,
    pub error: Option<String>,
    pub execution_time_ms: u64,
}

/// A cached tool result and when it was stored.
#[derive(Debug, Clone)]
pub struct CachedResult {
    pub key: String,
    pub value: Value,
    pub stored_at_ms: u64,
}

/// A call that has passed every phase up to invocation and holds one
/// execution slot until it is finished.
#[derive(Debug)]
pub struct PendingExecution {
    id: String,
    tool_name: String,
    cache_key: String,
    started_ms: u64,
}

impl PendingExecution {
    pub closed spec fn spec_tool_name(&self) -> Seq<char> {
        self.tool_name@
    }

    pub open spec fn spec_cache_key(&self) -> Seq<char> {
        self.key_string()@
    }

    pub closed spec fn spec_id(&self) -> Seq<char> {
        self.id@
    }

    pub closed spec fn key_string(&self) -> String {
        self.cache_key
    }

    pub closed spec fn spec_started_ms(&self) -> u64 {
        self.started_ms
    }

    /// The tool to run.
    pub fn tool_name(&self) -> (r: &str)
        ensures
            r@ == self.spec_tool_name(),
    {
        self.tool_name.as_str()
    }
}

/// What the pipeline does with a started call.
#[derive(Debug)]
pub enum Admission {
    /// Every slot is taken: wait for a call to finish, then try again.
    Busy,
    /// Answered from the cache; no slot is held.
    Done(ExecutionResult),
    /// Run the tool, then report to `finish`.
    Invoke(PendingExecution),
}

/// Name fragment that marks a tool as restricted.
pub open spec fn restricted_marker() -> Seq<char> {
    "admin"@
}

/// Permission a caller needs for a restricted tool.
pub open spec fn admin_permission() -> Seq<char> {
    "admin"@
}

/// The caller may run the tool `name`.
pub open spec fn permitted(name: Seq<char>, permissions: Seq<String>) -> bool {
    !has_substring(name, restricted_marker()) || exists|i: int|
        0 <= i < permissions.len() && #[trigger] permissions[i]@ == admin_permission()
}

/// A cache entry stored at `stored_at` is still valid at `now`.
pub open spec fn entry_live(stored_at: u64, now: u64, ttl: u64) -> bool {
    (now as int) - (stored_at as int) < ttl as int
}

/// The cache key of a call: the tool name, a colon, the parameters' text.
pub open spec fn key_of(name: Seq<char>, params_text: Seq<char>) -> Seq<char> {
    name + ":"@ + params_text
}

/// The time from `start` to `now`, or zero when the clock reads earlier.
pub open spec fn elapsed(start: u64, now: u64) -> u64 {
    if now >= start {
        (now - start) as u64
    } else {
        0
    }
}

/// Whether `t` is the JSON text of an empty object, array or string.
pub fn is_empty_json_text(t: &str) -> (r: bool)
    ensures
        r == empty_json_text(t@),
{
    str_eq(t, &String::from_str("{}")) || str_eq(t, &String::from_str("[]")) || str_eq(
        t,
        &String::from_str("\"\""),
    )
}

/// Validation of a call's input: the name is non-empty and the parameters
/// form a JSON object.
pub fn validate_input(tool_name: &str, params_is_object: bool) -> (r: Result<(), ToolError>)
    ensures
        tool_name@.len() == 0 ==> r is Err && r->Err_0 is ValidationFailed && error_message(
            r->Err_0,
        ) == "工具名称不能为空"@,
        tool_name@.len() > 0 && !params_is_object ==> r is Err && r->Err_0 is ValidationFailed
            && error_message(r->Err_0) == "参数必须是对象"@,
        tool_name@.len() > 0 && params_is_object ==> r is Ok,
{
    if tool_name.unicode_len() == 0 {
        return Err(ToolError::ValidationFailed(String::from_str("工具名称不能为空")));
    }
    if !params_is_object {
        return Err(ToolError::ValidationFailed(String::from_str("参数必须是对象")));
    }
    Ok(())
}

/// Permission check: a restricted tool needs the admin permission.
pub fn check_permissions(tool_name: &str, context: &ExecutionContext) -> (r: Result<(), ToolError>)
    ensures
        permitted(tool_name@, context.permissions@) ==> r is Ok,
        !permitted(tool_name@, context.permissions@) ==> r is Err && r->Err_0 is PermissionDenied
            && error_message(r->Err_0) == "需要管理员权限"@,
{
    if str_contains(tool_name, "admin") && !contains_string(&context.permissions, "admin") {
        return Err(ToolError::PermissionDenied(String::from_str("需要管理员权限")));
    }
    Ok(())
}

/// The cache key of a call.
pub fn cache_key(tool_name: &str, params_text: &str) -> (r: String)
    ensures
        r@ == key_of(tool_name@, params_text@),
{
    String::from_str(tool_name).concat(":").concat(params_text)
}

/// Position of the entry for `key`, or -1 when there is none.
pub open spec fn cache_index(s: Seq<CachedResult>, key: Seq<char>) -> int {
    if exists|i: int| 0 <= i < s.len() && #[trigger] s[i].key@ == key {
        choose|i: int| 0 <= i < s.len() && #[trigger] s[i].key@ == key
    } else {
        -1
    }
}

pub open spec fn keys_unique(s: Seq<CachedResult>) -> bool {
    forall|i: int, j: int|
        0 <= i < s.len() && 0 <= j < s.len() && i != j ==> #[trigger] s[i].key@ != #[trigger] s[j].key@
}

/// The valid cached value for `key` at `now`, if any.
pub open spec fn cache_get(s: Seq<CachedResult>, key: Seq<char>, now: u64, ttl: u64) -> Option<Value> {
    let k = cache_index(s, key);
    if k >= 0 && entry_live(s[k].stored_at_ms, now, ttl) {
        Some(s[k].value)
    } else {
        None
    }
}

/// The entries after a lookup of `key` at `now`: an expired entry for the
/// key is dropped.
pub open spec fn cache_after_lookup(s: Seq<CachedResult>, key: Seq<char>, now: u64, ttl: u64) -> Seq<
    CachedResult,
> {
    let k = cache_index(s, key);
    if k >= 0 && !entry_live(s[k].stored_at_ms, now, ttl) {
        s.remove(k)
    } else {
        s
    }
}

/// The entries after storing `c`, which replaces any entry with its key.
pub open spec fn cache_after_store(s: Seq<CachedResult>, c: CachedResult) -> Seq<CachedResult> {
    let k = cache_index(s, c.key@);
    if k >= 0 {
        s.update(k, c)
    } else {
        s.push(c)
    }
}

proof fn lemma_cache_index(s: Seq<CachedResult>, key: Seq<char>)
    ensures
        -1 <= cache_index(s, key) < s.len(),
        cache_index(s, key) >= 0 ==> s[cache_index(s, key)].key@ == key,
        cache_index(s, key) < 0 ==> forall|i: int| 0 <= i < s.len() ==> #[trigger] s[i].key@ != key,
        keys_unique(s) ==> forall|i: int|
            0 <= i < s.len() && #[trigger] s[i].key@ == key ==> cache_index(s, key) == i,
{
}

proof fn lemma_keys_update(s: Seq<CachedResult>, k: int, c: CachedResult)
    requires
        keys_unique(s),
        0 <= k < s.len(),
        s[k].key@ == c.key@,
    ensures
        keys_unique(s.update(k, c)),
{
    let s1 = s.update(k, c);
    assert forall|a: int, b: int|
        0 <= a < s1.len() && 0 <= b < s1.len() && a != b implies #[trigger] s1[a].key@
        != #[trigger] s1[b].key@ by {
        assert(s1[a].key@ == s[a].key@);
        assert(s1[b].key@ == s[b].key@);
    }
}

proof fn lemma_keys_push(s: Seq<CachedResult>, c: CachedResult)
    requires
        keys_unique(s),
        forall|i: int| 0 <= i < s.len() ==> #[trigger] s[i].key@ != c.key@,
    ensures
        keys_unique(s.push(c)),
{
    let s1 = s.push(c);
    assert forall|a: int, b: int|
        0 <= a < s1.len() && 0 <= b < s1.len() && a != b implies #[trigger] s1[a].key@
        != #[trigger] s1[b].key@ by {
        if a < s.len() {
            assert(s1[a] == s[a]);
        }
        if b < s.len() {
            assert(s1[b] == s[b]);
        }
    }
}

proof fn lemma_keys_remove(s: Seq<CachedResult>, k: int)
    requires
        keys_unique(s),
        0 <= k < s.len(),
    ensures
        keys_unique(s.remove(k)),
{
    let s1 = s.remove(k);
    assert forall|a: int, b: int|
        0 <= a < s1.len() && 0 <= b < s1.len() && a != b implies #[trigger] s1[a].key@
        != #[trigger] s1[b].key@ by {
        let a0 = if a < k { a } else { a + 1 };
        let b0 = if b < k { b } else { b + 1 };
        assert(s1[a] == s[a0]);
        assert(s1[b] == s[b0]);
    }
}

/// Whether an entry is still valid at `now`.
pub open spec fn live_at(now: u64, ttl: u64) -> spec_fn(CachedResult) -> bool {
    |c: CachedResult| entry_live(c.stored_at_ms, now, ttl)
}

/// Mathematical view of the pipeline's state.
pub struct EngineView {
    pub tools: Seq<Seq<char>>,
    pub entries: Seq<CachedResult>,
    pub max_concurrent: nat,
    pub in_flight: nat,
    pub ttl: u64,
}

/// How the pipeline answers a call, decided from its state and the call.
pub enum StartOutcome {
    InvalidName,
    InvalidParameters,
    Denied,
    Busy,
    Hit(Value),
    NotFound,
    Invoke,
}

/// The pipeline's answer to a call of `name` whose parameters are (or are
/// not) an object and have cache key `key`, at time `now`.
pub open spec fn start_outcome(
    v: EngineView,
    name: Seq<char>,
    params_is_object: bool,
    key: Seq<char>,
    permissions: Seq<String>,
    now: u64,
) -> StartOutcome {
    if name.len() == 0 {
        StartOutcome::InvalidName
    } else if !params_is_object {
        StartOutcome::InvalidParameters
    } else if !permitted(name, permissions) {
        StartOutcome::Denied
    } else if v.in_flight >= v.max_concurrent {
        StartOutcome::Busy
    } else {
        match cache_get(v.entries, key, now, v.ttl) {
            Some(value) => StartOutcome::Hit(value),
            None => if v.tools.contains(name) {
                StartOutcome::Invoke
            } else {
                StartOutcome::NotFound
            },
        }
    }
}

/// The pipeline's state after answering that call.
pub open spec fn start_next(
    v: EngineView,
    name: Seq<char>,
    params_is_object: bool,
    key: Seq<char>,
    permissions: Seq<String>,
    now: u64,
) -> EngineView {
    match start_outcome(v, name, params_is_object, key, permissions, now) {
        StartOutcome::InvalidName | StartOutcome::InvalidParameters | StartOutcome::Denied
        | StartOutcome::Busy | StartOutcome::Hit(_) => v,
        StartOutcome::NotFound => EngineView {
            entries: cache_after_lookup(v.entries, key, now, v.ttl),
            ..v
        },
        StartOutcome::Invoke => EngineView {
            entries: cache_after_lookup(v.entries, key, now, v.ttl),
            in_flight: v.in_flight + 1,
            ..v
        },
    }
}

/// The JSON text of an empty object, array or string.
pub open spec fn empty_json_text(t: Seq<char>) -> bool {
    t == "{}"@ || t == "[]"@ || t == "\"\""@
}

/// A returned value that result validation rejects: null or empty.
pub open spec fn rejected_result(is_null: bool, text: Seq<char>) -> bool {
    is_null || empty_json_text(text)
}

/// Whether result validation rejects what a tool returned.
pub open spec fn finish_rejects(outcome: Result<Value, ToolError>) -> bool {
    match outcome {
        Ok(v) => rejected_result(json_is_null(v), json_text_of(v)),
        Err(_) => false,
    }
}

/// The pipeline's state after a call holding a slot finished with
/// `outcome` at `now`; `rejected` tells whether a returned value is null
/// or empty.
pub open spec fn finish_next(
    v: EngineView,
    key: String,
    outcome: Result<Value, ToolError>,
    rejected: bool,
    now: u64,
) -> EngineView {
    let released = EngineView {
        in_flight: if v.in_flight > 0 {
            (v.in_flight - 1) as nat
        } else {
            0
        },
        ..v
    };
    match outcome {
        Ok(value) => if rejected {
            released
        } else {
            EngineView {
                entries: cache_after_store(
                    v.entries,
                    CachedResult { key, value, stored_at_ms: now },
                ),
                ..released
            }
        },
        Err(_) => released,
    }
}

/// `r` is the reply that goes with `out` for a call of `name` with cache
/// key `key` at `now`.
pub open spec fn start_reply(
    r: Result<Admission, ToolError>,
    out: StartOutcome,
    name: Seq<char>,
    key: Seq<char>,
    now: u64,
) -> bool {
    match out {
        StartOutcome::InvalidName => r is Err && r->Err_0 is ValidationFailed && error_message(
            r->Err_0,
        ) == "工具名称不能为空"@,
        StartOutcome::InvalidParameters => r is Err && r->Err_0 is ValidationFailed
            && error_message(r->Err_0) == "参数必须是对象"@,
        StartOutcome::Denied => r is Err && r->Err_0 is PermissionDenied && error_message(r->Err_0)
            == "需要管理员权限"@,
        StartOutcome::Busy => r is Ok && r->Ok_0 is Busy,
        StartOutcome::Hit(v) => r is Ok && r->Ok_0 is Done && ({
            let res = r->Ok_0->Done_0;
            &&& res.tool_name@ == name
            &&& res.status == ExecutionStatus::Completed
            &&& res.result == Some(v)
            &&& res.error is None
            &&& res.execution_time_ms == 0
        }),
        StartOutcome::NotFound => r is Err && r->Err_0 is ToolNotFound && error_message(r->Err_0)
            == name,
        StartOutcome::Invoke => r is Ok && r->Ok_0 is Invoke && ({
            let p = r->Ok_0->Invoke_0;
            &&& p.spec_tool_name() == name
            &&& p.spec_cache_key() == key
            &&& p.spec_started_ms() == now
        }),
    }
}

/// `r` is the reply to a call that finished with `outcome` at `now`.
pub open spec fn finish_reply(
    r: Result<ExecutionResult, ToolError>,
    p: PendingExecution,
    outcome: Result<Value, ToolError>,
    rejected: bool,
    now: u64,
) -> bool {
    match outcome {
        Err(e) => r is Err && r->Err_0 is ExecutionFailed && error_message(r->Err_0)
            == error_message(e),
        Ok(v) => if rejected {
            r is Err && r->Err_0 is ValidationFailed && error_message(r->Err_0) == "结果不能为空"@
        } else {
            r is Ok && ({
                let res = r->Ok_0;
                &&& res.id@ == p.spec_id()
                &&& res.tool_name@ == p.spec_tool_name()
                &&& res.status == ExecutionStatus::Completed
                &&& res.result == Some(v)
                &&& res.error is None
                &&& res.execution_time_ms == elapsed(p.spec_started_ms(), now)
            })
        },
    }
}

/// The tool catalogue, the result cache and the concurrency gate.
pub struct EnhancedToolExecutionEngine {
    tools: Vec<String>,
    cache: Vec<CachedResult>,
    max_concurrent: usize,
    in_flight: usize,
    cache_ttl_ms: u64,
}

impl View for EnhancedToolExecutionEngine {
    type V = EngineView;

    closed spec fn view(&self) -> EngineView {
        EngineView {
            tools: self.tools@.map_values(|t: String| t@),
            entries: self.cache@,
            max_concurrent: self.max_concurrent as nat,
            in_flight: self.in_flight as nat,
            ttl: self.cache_ttl_ms,
        }
    }
}

impl EnhancedToolExecutionEngine {
    /// At most `max_concurrent` slots are held, and the cache has one entry
    /// per key.
    pub open spec fn wf(&self) -> bool {
        &&& self@.in_flight <= self@.max_concurrent
        &&& keys_unique(self@.entries)
    }

    pub fn new(max_concurrent: usize, cache_ttl_ms: u64) -> (r: Self)
        ensures
            r.wf(),
            r@.tools.len() == 0,
            r@.entries.len() == 0,
            r@.max_concurrent == max_concurrent,
            r@.in_flight == 0,
            r@.ttl == cache_ttl_ms,
    {
        let r = EnhancedToolExecutionEngine {
            tools: Vec::new(),
            cache: Vec::new(),
            max_concurrent,
            in_flight: 0,
            cache_ttl_ms,
        };
        proof {
            assert(r@.tools =~= Seq::<Seq<char>>::empty());
        }
        r
    }

    /// Execution slots that are free.
    pub fn available_slots(&self) -> (r: usize)
        requires
            self.wf(),
        ensures
            r == self@.max_concurrent - self@.in_flight,
    {
        self.max_concurrent - self.in_flight
    }

    /// Entries in the result cache, valid or not.
    pub fn cache_len(&self) -> (r: usize)
        ensures
            r == self@.entries.len(),
    {
        self.cache.len()
    }

    /// Adds `name` to the catalogue; a name already there stays once.
    pub fn register_tool(&mut self, name: &str) -> (r: Result<(), ToolError>)
        requires
            old(self).wf(),
        ensures
            r is Ok,
            final(self).wf(),
            final(self)@.tools.contains(name@),
            forall|n: Seq<char>| #[trigger]
                final(self)@.tools.contains(n) <==> (old(self)@.tools.contains(n) || n == name@),
            final(self)@ == (EngineView { tools: final(self)@.tools, ..old(self)@ }),
    {
        let ghost t0 = self@.tools;
        if !contains_string(&self.tools, name) {
            self.tools.push(String::from_str(name));
            proof {
                assert(self@.tools =~= t0.push(name@));
                assert(self@.tools[t0.len() as int] == name@);
                assert forall|n: Seq<char>| #[trigger]
                    self@.tools.contains(n) <==> (t0.contains(n) || n == name@) by {
                    if t0.contains(n) {
                        let i = choose|i: int| 0 <= i < t0.len() && t0[i] == n;
                        assert(self@.tools[i] == n);
                    }
                    if self@.tools.contains(n) && n != name@ {
                        let i = choose|i: int| 0 <= i < self@.tools.len() && self@.tools[i] == n;
                        assert(t0[i] == n);
                    }
                }
            }
        } else {
            proof {
                let i = choose|i: int| 0 <= i < self.tools@.len() && #[trigger] self.tools@[i]@
                    == name@;
                assert(self@.tools[i] == name@);
            }
        }
        Ok(())
    }

    fn find_entry(&self, key: &str) -> (r: Option<usize>)
        requires
            self.wf(),
        ensures
            match r {
                Some(i) => i as int == cache_index(self@.entries, key@),
                None => cache_index(self@.entries, key@) < 0,
            },
    {
        proof {
            lemma_cache_index(self.cache@, key@);
        }
        let mut i: usize = 0;
        while i < self.cache.len()
            invariant
                self.wf(),
                i <= self.cache@.len(),
                forall|j: int| 0 <= j < i ==> #[trigger] self.cache@[j].key@ != key@,
            decreases self.cache@.len() - i,
        {
            if str_eq(key, &self.cache[i].key) {
                proof {
                    assert(self.cache@[i as int].key@ == key@);
                    lemma_cache_index(self.cache@, key@);
                }
                return Some(i);
            }
            i = i + 1;
        }
        None
    }

    /// The valid cached value for `key` at `now_ms`; an expired entry for
    /// the key is dropped.
    pub fn get_from_cache(&mut self, key: &str, now_ms: u64) -> (r: Option<Value>)
        requires
            old(self).wf(),
        ensures
            final(self).wf(),
            r == cache_get(old(self)@.entries, key@, now_ms, old(self)@.ttl),
            final(self)@ == (EngineView {
                entries: cache_after_lookup(old(self)@.entries, key@, now_ms, old(self)@.ttl),
                ..old(self)@
            }),
    {
        let ghost s0 = self.cache@;
        match self.find_entry(key) {
            None => None,
            Some(k) => {
                let stored = self.cache[k].stored_at_ms;
                let live = now_ms < stored || now_ms - stored < self.cache_ttl_ms;
                if live {
                    Some(self.cache[k].value.clone())
                } else {
                    self.cache.remove(k);
                    proof {
                        lemma_keys_remove(s0, k as int);
                    }
                    None
                }
            },
        }
    }

    /// Stores `value` under `key` at `now_ms`, replacing any earlier entry.
    pub fn store_in_cache(&mut self, key: String, value: Value, now_ms: u64)
        requires
            old(self).wf(),
        ensures
            final(self).wf(),
            final(self)@ == (EngineView {
                entries: cache_after_store(
                    old(self)@.entries,
                    CachedResult { key, value, stored_at_ms: now_ms },
                ),
                ..old(self)@
            }),
    {
        let ghost s0 = self.cache@;
        let entry = CachedResult { key, value, stored_at_ms: now_ms };
        proof {
            lemma_cache_index(s0, entry.key@);
        }
        match self.find_entry(entry.key.as_str()) {
            Some(k) => {
                proof {
                    lemma_keys_update(s0, k as int, entry);
                }
                self.cache.set(k, entry);
            },
            None => {
                proof {
                    lemma_keys_push(s0, entry);
                }
                self.cache.push(entry);
            },
        }
    }

    /// Drops every cache entry that is no longer valid at `now_ms`.
    pub fn cleanup_expired_cache(&mut self, now_ms: u64)
        requires
            old(self).wf(),
        ensures
            final(self).wf(),
            final(self)@ == (EngineView {
                entries: old(self)@.entries.filter(live_at(now_ms, old(self)@.ttl)),
                ..old(self)@
            }),
    {
        let ghost s0 = self.cache@;
        let ghost ttl = self.cache_ttl_ms;
        let ghost live = live_at(now_ms, ttl);
        let n0 = self.cache.len();
        let mut i: usize = 0;
        let mut seen: usize = 0;
        while i < self.cache.len()
            invariant
                keys_unique(self.cache@),
                seen <= s0.len(),
                s0.len() == n0,
                live == live_at(now_ms, ttl),
                i <= self.cache@.len(),
                ttl == self.cache_ttl_ms,
                self.cache@ =~= s0.subrange(0, seen as int).filter(live) + s0.subrange(
                    seen as int,
                    s0.len() as int,
                ),
                i == s0.subrange(0, seen as int).filter(live).len(),
                self.in_flight == old(self).in_flight,
                self.max_concurrent == old(self).max_concurrent,
                self.tools == old(self).tools,
            decreases self.cache@.len() - i,
        {
            let ghost before = self.cache@;
            let ghost f0 = s0.subrange(0, seen as int).filter(live);
            let ghost f1 = s0.subrange(0, seen + 1).filter(live);
            let ghost rest1 = s0.subrange(seen + 1, s0.len() as int);
            proof {
                assert(before.len() == i + s0.len() - seen);
                assert(seen < s0.len());
                assert(before[i as int] == s0[seen as int]);
                assert(s0.subrange(0, seen + 1).drop_last() =~= s0.subrange(0, seen as int));
                assert(s0.subrange(0, seen + 1).last() == s0[seen as int]);
                reveal(Seq::filter);
                assert(f1 == if live(s0[seen as int]) {
                    f0.push(s0[seen as int])
                } else {
                    f0
                });
            }
            let stored = self.cache[i].stored_at_ms;
            if now_ms < stored || now_ms - stored < self.cache_ttl_ms {
                proof {
                    assert(live(s0[seen as int]));
                    assert(self.cache@ =~= f1 + rest1);
                }
                i = i + 1;
            } else {
                self.cache.remove(i);
                proof {
                    assert(!live(s0[seen as int]));
                    lemma_keys_remove(before, i as int);
                    assert(self.cache@ =~= f1 + rest1);
                }
            }
            seen = seen + 1;
        }
        proof {
            assert(s0.subrange(0, seen as int) =~= s0);
        }
    }

    /// Takes a call through validation, the permission check, the
    /// concurrency gate, the cache lookup and the catalogue lookup. On
    /// `Invoke` one slot stays held for the call; on every other answer the
    /// gate is as before.
    pub fn start_checked(
        &mut self,
        execution_id: String,
        tool_name: &str,
        params_is_object: bool,
        params_text: &str,
        context: &ExecutionContext,
        now_ms: u64,
    ) -> (r: Result<Admission, ToolError>)
        requires
            old(self).wf(),
        ensures
            final(self).wf(),
            final(self)@ == start_next(
                old(self)@,
                tool_name@,
                params_is_object,
                key_of(tool_name@, params_text@),
                context.permissions@,
                now_ms,
            ),
            start_reply(
                r,
                start_outcome(
                    old(self)@,
                    tool_name@,
                    params_is_object,
                    key_of(tool_name@, params_text@),
                    context.permissions@,
                    now_ms,
                ),
                tool_name@,
                key_of(tool_name@, params_text@),
                now_ms,
            ),
            r is Ok && r->Ok_0 is Done ==> r->Ok_0->Done_0.id == execution_id,
            r is Ok && r->Ok_0 is Invoke ==> r->Ok_0->Invoke_0.spec_id() == execution_id@,
    {
        match validate_input(tool_name, params_is_object) {
            Err(e) => {
                return Err(e);
            },
            Ok(()) => {},
        }
        match check_permissions(tool_name, context) {
            Err(e) => {
                return Err(e);
            },
            Ok(()) => {},
        }
        if self.in_flight >= self.max_concurrent {
            return Ok(Admission::Busy);
        }
        self.in_flight = self.in_flight + 1;
        let key = cache_key(tool_name, params_text);
        match self.get_from_cache(key.as_str(), now_ms) {
            Some(value) => {
                self.in_flight = self.in_flight - 1;
                return Ok(
                    Admission::Done(
                        ExecutionResult {
                            id: execution_id,
                            tool_name: String::from_str(tool_name),
                            status: ExecutionStatus::Completed,
                            result: Some(value),
                            error: None,
                            execution_time_ms: 0,
                        },
                    ),
                );
            },
            None => {},
        }
        if !contains_string(&self.tools, tool_name) {
            self.in_flight = self.in_flight - 1;
            proof {
                assert(!self@.tools.contains(tool_name@)) by {
                    if self@.tools.contains(tool_name@) {
                        let i = choose|i: int|
                            0 <= i < self@.tools.len() && self@.tools[i] == tool_name@;
                        assert(self.tools@[i]@ == tool_name@);
                    }
                }
            }
            return Err(ToolError::ToolNotFound(String::from_str(tool_name)));
        }
        proof {
            let i = choose|i: int| 0 <= i < self.tools@.len() && #[trigger] self.tools@[i]@
                == tool_name@;
            assert(self@.tools[i] == tool_name@);
        }
        Ok(
            Admission::Invoke(
                PendingExecution {
                    id: execution_id,
                    tool_name: String::from_str(tool_name),
                    cache_key: key,
                    started_ms: now_ms,
                },
            ),
        )
    }

    /// Starts a call with JSON parameters under a fresh execution
    /// identifier, deciding by whether the parameters form an object and by
    /// their JSON text.
    pub fn start_execution(
        &mut self,
        tool_name: &str,
        parameters: &Value,
        context: &ExecutionContext,
        now_ms: u64,
    ) -> (r: Result<Admission, ToolError>)
        requires
            old(self).wf(),
        ensures
            final(self).wf(),
            final(self)@ == start_next(
                old(self)@,
                tool_name@,
                json_is_object(*parameters),
                key_of(tool_name@, json_text_of(*parameters)),
                context.permissions@,
                now_ms,
            ),
            start_reply(
                r,
                start_outcome(
                    old(self)@,
                    tool_name@,
                    json_is_object(*parameters),
                    key_of(tool_name@, json_text_of(*parameters)),
                    context.permissions@,
                    now_ms,
                ),
                tool_name@,
                key_of(tool_name@, json_text_of(*parameters)),
                now_ms,
            ),
    {
        let is_object = parameters.is_object();
        let text = json_text(parameters);
        self.start_checked(fresh_id(), tool_name, is_object, text.as_str(), context, now_ms)
    }

    /// Result validation, cache store and release of the slot for a call
    /// whose tool finished with `outcome`. For a returned value,
    /// `result_is_null` tells whether it is JSON null and `result_text` is
    /// its JSON text; a null or empty value is rejected. A tool's error is
    /// reported as `ExecutionFailed` with the tool's message.
    pub fn finish_checked(
        &mut self,
        pending: PendingExecution,
        outcome: Result<Value, ToolError>,
        result_is_null: bool,
        result_text: &str,
        now_ms: u64,
    ) -> (r: Result<ExecutionResult, ToolError>)
        requires
            old(self).wf(),
            old(self)@.in_flight > 0,
        ensures
            final(self).wf(),
            final(self)@ == finish_next(
                old(self)@,
                pending.key_string(),
                outcome,
                rejected_result(result_is_null, result_text@),
                now_ms,
            ),
            finish_reply(
                r,
                pending,
                outcome,
                rejected_result(result_is_null, result_text@),
                now_ms,
            ),
    {
        self.in_flight = self.in_flight - 1;
        let PendingExecution { id, tool_name, cache_key, started_ms } = pending;
        match outcome {
            Err(e) => Err(ToolError::ExecutionFailed(e.message())),
            Ok(value) => {
                if result_is_null || is_empty_json_text(result_text) {
                    return Err(ToolError::ValidationFailed(String::from_str("结果不能为空")));
                }
                self.store_in_cache(cache_key, value.clone(), now_ms);
                let execution_time_ms = if now_ms >= started_ms {
                    now_ms - started_ms
                } else {
                    0
                };
                Ok(
                    ExecutionResult {
                        id,
                        tool_name,
                        status: ExecutionStatus::Completed,
                        result: Some(value),
                        error: None,
                        execution_time_ms,
                    },
                )
            },
        }
    }

    /// Finishes a call whose tool returned `outcome`, as
    /// [`Self::finish_checked`] with whether a returned value is null and
    /// with its JSON text.
    pub fn finish(
        &mut self,
        pending: PendingExecution,
        outcome: Result<Value, ToolError>,
        now_ms: u64,
    ) -> (r: Result<ExecutionResult, ToolError>)
        requires
            old(self).wf(),
            old(self)@.in_flight > 0,
        ensures
            final(self).wf(),
            final(self)@ == finish_next(
                old(self)@,
                pending.key_string(),
                outcome,
                finish_rejects(outcome),
                now_ms,
            ),
            finish_reply(r, pending, outcome, finish_rejects(outcome), now_ms),
    {
        let (is_null, text) = match &outcome {
            Ok(v) => (v.is_null(), json_text(v)),
            Err(_) => (false, String::new()),
        };
        self.finish_checked(pending, outcome, is_null, text.as_str(), now_ms)
    }

    /// Calls that hold an execution slot.
    pub fn in_flight(&self) -> (r: usize)
        ensures
            r == self@.in_flight,
    {
        self.in_flight
    }
}

proof fn lemma_store_then_get(s: Seq<CachedResult>, c: CachedResult, now: u64, ttl: u64)
    requires
        keys_unique(s),
    ensures
        keys_unique(cache_after_store(s, c)),
        cache_index(cache_after_store(s, c), c.key@) >= 0,
        cache_after_store(s, c)[cache_index(cache_after_store(s, c), c.key@)] == c,
{
    lemma_cache_index(s, c.key@);
    let k = cache_index(s, c.key@);
    if k >= 0 {
        lemma_keys_update(s, k, c);
    } else {
        lemma_keys_push(s, c);
    }
    let s1 = cache_after_store(s, c);
    lemma_cache_index(s1, c.key@);
    if k >= 0 {
        assert(s1[k].key@ == c.key@);
    } else {
        assert(s1[s.len() as int].key@ == c.key@);
    }
}

/// A call of a tool that is not in the catalogue fails with `ToolNotFound`
/// and leaves the number of free execution slots as it was.
pub proof fn lemma_not_found_keeps_slots(
    v: EngineView,
    name: Seq<char>,
    params_is_object: bool,
    key: Seq<char>,
    permissions: Seq<String>,
    now: u64,
)
    requires
        v.in_flight <= v.max_concurrent,
        name.len() > 0,
        params_is_object,
        permitted(name, permissions),
        !v.tools.contains(name),
        v.in_flight < v.max_concurrent,
        cache_get(v.entries, key, now, v.ttl) is None,
    ensures
        start_outcome(v, name, params_is_object, key, permissions, now) is NotFound,
        start_next(v, name, params_is_object, key, permissions, now).in_flight == v.in_flight,
        start_next(v, name, params_is_object, key, permissions, now).max_concurrent
            == v.max_concurrent,
{
}

/// Concurrency bound: no step of the pipeline lets more than
/// `max_concurrent` calls run at once, and a tool is invoked only when a
/// slot is free.
pub proof fn lemma_gate_bound(
    v: EngineView,
    name: Seq<char>,
    params_is_object: bool,
    key: Seq<char>,
    permissions: Seq<String>,
    now: u64,
    done_key: String,
    outcome: Result<Value, ToolError>,
    rejected: bool,
)
    requires
        v.in_flight <= v.max_concurrent,
    ensures
        start_next(v, name, params_is_object, key, permissions, now).in_flight <= v.max_concurrent,
        start_outcome(v, name, params_is_object, key, permissions, now) is Invoke ==> v.in_flight
            < v.max_concurrent,
        finish_next(v, done_key, outcome, rejected, now).in_flight <= v.max_concurrent,
{
}

/// A repeated call within the time to live is answered from the cache with
/// the value the first call stored, and the tool is not run again.
pub proof fn lemma_repeat_within_ttl_is_cached(
    v: EngineView,
    name: Seq<char>,
    key: String,
    value: Value,
    permissions: Seq<String>,
    stored_at: u64,
    now: u64,
)
    requires
        keys_unique(v.entries),
        0 < v.in_flight <= v.max_concurrent,
        name.len() > 0,
        permitted(name, permissions),
        entry_live(stored_at, now, v.ttl),
    ensures
        ({
            let v1 = finish_next(v, key, Ok(value), false, stored_at);
            &&& start_outcome(v1, name, true, key@, permissions, now) == StartOutcome::Hit(value)
            &&& start_next(v1, name, true, key@, permissions, now) == v1
        }),
{
    lemma_store_then_get(v.entries, CachedResult { key, value, stored_at_ms: stored_at }, now, v.ttl);
}

/// Once the time to live has passed, a repeated call of a catalogued tool
/// misses the cache and runs the tool again.
pub proof fn lemma_repeat_after_ttl_runs_again(
    v: EngineView,
    name: Seq<char>,
    key: String,
    value: Value,
    permissions: Seq<String>,
    stored_at: u64,
    now: u64,
)
    requires
        keys_unique(v.entries),
        0 < v.in_flight <= v.max_concurrent,
        name.len() > 0,
        permitted(name, permissions),
        v.tools.contains(name),
        !entry_live(stored_at, now, v.ttl),
    ensures
        ({
            let v1 = finish_next(v, key, Ok(value), false, stored_at);
            start_outcome(v1, name, true, key@, permissions, now) == StartOutcome::Invoke
        }),
{
    lemma_store_then_get(v.entries, CachedResult { key, value, stored_at_ms: stored_at }, now, v.ttl);
}

} // verus!
