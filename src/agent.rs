//! Agent settings and the builder that collects the peers an agent talks to.
use vstd::prelude::*;
use crate::keyed::{names_unique, upsert, upserted};

verus! {

/// Name, description and version of an agent.
#[derive(Debug, Clone)]
pub struct AgentConfig {
    pub name: String,
    pub description: String,
    pub version: String,
}

/// What an agent is doing.
#[derive(Debug, Clone, PartialEq, Eq)]
pub enum AgentState {
    Idle,
    Processing,
    WaitingForTool,
    WaitingForAgent,
    Error(String),
}

/// Collects an agent's settings and the endpoints of its tool servers and
/// peer agents, one endpoint per name.
pub struct AgentBuilder {
    config: AgentConfig,
    mcp_endpoints: Vec<(String, String)>,
    a2a_endpoints: Vec<(String, String)>,
}

impl AgentBuilder {
    pub closed spec fn spec_config(&self) -> AgentConfig {
        self.config
    }

    /// Tool-server endpoints, `(name, url)`, in order of first addition.
    pub closed spec fn spec_mcp(&self) -> Seq<(String, String)> {
        self.mcp_endpoints@
    }

    /// Peer-agent endpoints, `(name, url)`, in order of first addition.
    pub closed spec fn spec_a2a(&self) -> Seq<(String, String)> {
        self.a2a_endpoints@
    }

    pub open spec fn wf(&self) -> bool {
        names_unique(self.spec_mcp()) && names_unique(self.spec_a2a())
    }

    pub fn new(name: &str, description: &str) -> (r: Self)
        ensures
            r.wf(),
            r.spec_config().name@ == name@,
            r.spec_config().description@ == description@,
            r.spec_config().version@ == "0.1.0"@,
            r.spec_mcp().len() == 0,
            r.spec_a2a().len() == 0,
    {
        AgentBuilder {
            config: AgentConfig {
                name: String::from_str(name),
                description: String::from_str(description),
                version: String::from_str("0.1.0"),
            },
            mcp_endpoints: Vec::new(),
            a2a_endpoints: Vec::new(),
        }
    }

    pub fn version(self, version: &str) -> (r: Self)
        requires
            self.wf(),
        ensures
            r.wf(),
            r.spec_config().name == self.spec_config().name,
            r.spec_config().description == self.spec_config().description,
            r.spec_config().version@ == version@,
            r.spec_mcp() == self.spec_mcp(),
            r.spec_a2a() == self.spec_a2a(),
    {
        let mut b = self;
        b.config.version = String::from_str(version);
        b
    }

    /// Adds a tool-server endpoint; a later one with the same name wins.
    pub fn add_mcp(self, name: &str, url: &str) -> (r: Self)
        requires
            self.wf(),
        ensures
            r.wf(),
            r.spec_config() == self.spec_config(),
            r.spec_a2a() == self.spec_a2a(),
            exists|e: (String, String)|
                e.0@ == name@ && e.1@ == url@ && r.spec_mcp() == upserted(self.spec_mcp(), e),
    {
        let mut b = self;
        let e = (String::from_str(name), String::from_str(url));
        upsert(&mut b.mcp_endpoints, e);
        b
    }

    /// Adds a peer-agent endpoint; a later one with the same name wins.
    pub fn add_a2a(self, name: &str, url: &str) -> (r: Self)
        requires
            self.wf(),
        ensures
            r.wf(),
            r.spec_config() == self.spec_config(),
            r.spec_mcp() == self.spec_mcp(),
            exists|e: (String, String)|
                e.0@ == name@ && e.1@ == url@ && r.spec_a2a() == upserted(self.spec_a2a(), e),
    {
        let mut b = self;
        let e = (String::from_str(name), String::from_str(url));
        upsert(&mut b.a2a_endpoints, e);
        b
    }

    pub fn config(&self) -> (r: &AgentConfig)
        ensures
            *r == self.spec_config(),
    {
        &self.config
    }

    pub fn mcp_endpoints(&self) -> (r: &Vec<(String, String)>)
        ensures
            r@ == self.spec_mcp(),
    {
        &self.mcp_endpoints
    }

    pub fn a2a_endpoints(&self) -> (r: &Vec<(String, String)>)
        ensures
            r@ == self.spec_a2a(),
    {
        &self.a2a_endpoints
    }
}

} // verus!
