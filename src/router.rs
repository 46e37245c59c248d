//! Keyword router: maps a message to the backend that should handle it.
use vstd::prelude::*;
use crate::text::{has_substring, str_contains};

verus! {

/// Where a message is sent.
#[derive(Debug, Clone, PartialEq, Eq)]
pub enum RouteTarget {
    LocalLLM,
    A2AAgent(String),
    MCPTool(String),
}

/// Mathematical view of a [`RouteTarget`].
pub enum RouteTargetView {
    LocalLLM,
    A2AAgent(Seq<char>),
    MCPTool(Seq<char>),
}

impl View for RouteTarget {
    type V = RouteTargetView;

    open spec fn view(&self) -> RouteTargetView {
        match self {
            RouteTarget::LocalLLM => RouteTargetView::LocalLLM,
            RouteTarget::A2AAgent(n) => RouteTargetView::A2AAgent(n@),
            RouteTarget::MCPTool(n) => RouteTargetView::MCPTool(n@),
        }
    }
}

/// The outcome of routing one message. `confidence` is in thousandths
/// (700 stands for 0.7).
#[derive(Debug, Clone)]
pub struct RouteDecision {
    pub target: RouteTarget,
    pub confidence: u32,
    pub reasoning: String,
}

/// Mathematical view of a [`RouteDecision`].
pub struct RouteDecisionView {
    pub target: RouteTargetView,
    pub confidence: u32,
    pub reasoning: Seq<char>,
}

impl View for RouteDecision {
    type V = RouteDecisionView;

    open spec fn view(&self) -> RouteDecisionView {
        RouteDecisionView {
            target: self.target@,
            confidence: self.confidence,
            reasoning: self.reasoning@,
        }
    }
}

pub open spec fn info_keyword_a() -> Seq<char> {
    seq!['天', '气']
}

pub open spec fn info_keyword_b() -> Seq<char> {
    seq!['时', '间']
}

pub open spec fn tool_keyword_a() -> Seq<char> {
    seq!['文', '件']
}

pub open spec fn tool_keyword_b() -> Seq<char> {
    seq!['计', '算']
}

/// The text asks for information (weather or time).
pub open spec fn is_info_request(text: Seq<char>) -> bool {
    has_substring(text, info_keyword_a()) || has_substring(text, info_keyword_b())
}

/// The text asks for a tool (files or computation).
pub open spec fn is_tool_request(text: Seq<char>) -> bool {
    has_substring(text, tool_keyword_a()) || has_substring(text, tool_keyword_b())
}

pub open spec fn info_agent_name() -> Seq<char> {
    "info_agent"@
}

pub open spec fn file_tool_name() -> Seq<char> {
    "file_processor"@
}

pub open spec fn info_reason() -> Seq<char> {
    "匹配到信息查询关键词"@
}

pub open spec fn tool_reason() -> Seq<char> {
    "匹配到工具处理关键词"@
}

pub open spec fn local_reason() -> Seq<char> {
    "默认路由到本地LLM"@
}

/// The decision for a text: first matching rule wins.
pub open spec fn route_spec(text: Seq<char>) -> RouteDecisionView {
    if is_info_request(text) {
        RouteDecisionView {
            target: RouteTargetView::A2AAgent(info_agent_name()),
            confidence: 700,
            reasoning: info_reason(),
        }
    } else if is_tool_request(text) {
        RouteDecisionView {
            target: RouteTargetView::MCPTool(file_tool_name()),
            confidence: 800,
            reasoning: tool_reason(),
        }
    } else {
        RouteDecisionView {
            target: RouteTargetView::LocalLLM,
            confidence: 900,
            reasoning: local_reason(),
        }
    }
}

/// Stateless keyword router.
#[derive(Debug, Clone, Copy)]
pub struct IntelligentRouter;

impl IntelligentRouter {
    pub fn new() -> (r: Self) {
        IntelligentRouter
    }

    /// Decides where `message` goes. Pure and deterministic.
    pub fn route_message(&self, message: &str) -> (r: RouteDecision)
        ensures
            r@ == route_spec(message@),
    {
        proof {
            reveal_strlit("天气");
            reveal_strlit("时间");
            reveal_strlit("文件");
            reveal_strlit("计算");
            assert("天气"@ =~= info_keyword_a());
            assert("时间"@ =~= info_keyword_b());
            assert("文件"@ =~= tool_keyword_a());
            assert("计算"@ =~= tool_keyword_b());
        }
        if str_contains(message, "天气") || str_contains(message, "时间") {
            RouteDecision {
                target: RouteTarget::A2AAgent(String::from_str("info_agent")),
                confidence: 700,
                reasoning: String::from_str("匹配到信息查询关键词"),
            }
        } else if str_contains(message, "文件") || str_contains(message, "计算") {
            RouteDecision {
                target: RouteTarget::MCPTool(String::from_str("file_processor")),
                confidence: 800,
                reasoning: String::from_str("匹配到工具处理关键词"),
            }
        } else {
            RouteDecision {
                target: RouteTarget::LocalLLM,
                confidence: 900,
                reasoning: String::from_str("默认路由到本地LLM"),
            }
        }
    }
}

/// Routing is a function of the text alone: two decisions made for equal
/// texts agree on target, confidence and reasoning.
pub proof fn lemma_route_deterministic(a: RouteDecision, b: RouteDecision, text: Seq<char>)
    requires
        a@ == route_spec(text),
        b@ == route_spec(text),
    ensures
        a@ == b@,
{
}

} // verus!
