//! Registry of the tool servers (MCP servers) an agent is configured with,
//! and which of them are reachable.
use vstd::prelude::*;
use crate::keyed::{find_key, key_index, names_unique, upsert, upserted};
use crate::text::{copy_string, copy_strings};

verus! {

/// Settings of one tool server. `timeout` is in seconds.
#[derive(Debug, Clone)]
pub struct McpServerConfig {
    pub name: String,
    pub description: String,
    pub url: String,
    pub timeout: u64,
    pub retry_attempts: u32,
    pub enabled: bool,
}

/// The configured tool servers, `(id, settings)`.
#[derive(Debug, Clone)]
pub struct McpConfig {
    pub servers: Vec<(String, McpServerConfig)>,
    pub enabled: bool,
}

/// A registered tool server. `endpoint` is the base URL its client talks to.
#[derive(Debug, Clone)]
pub struct ConnectedMcpServer {
    pub config: McpServerConfig,
    pub endpoint: String,
    pub connected: bool,
    pub capabilities: Vec<String>,
}

fn copy_server_config(c: &McpServerConfig) -> (r: McpServerConfig)
    ensures
        r == *c,
{
    McpServerConfig {
        name: copy_string(&c.name),
        description: copy_string(&c.description),
        url: copy_string(&c.url),
        timeout: c.timeout,
        retry_attempts: c.retry_attempts,
        enabled: c.enabled,
    }
}

/// The entry a newly added server gets: registered, not yet connected.
pub open spec fn fresh_server(s: ConnectedMcpServer, config: McpServerConfig) -> bool {
    &&& s.config == config
    &&& s.endpoint@ == config.url@
    &&& !s.connected
    &&& s.capabilities@.len() == 0
}

/// The entries whose server is connected, in registration order.
pub open spec fn connected_entries(s: Seq<(String, ConnectedMcpServer)>) -> Seq<
    (String, ConnectedMcpServer),
> {
    s.filter(|e: (String, ConnectedMcpServer)| e.1.connected)
}

/// Keeps the tool servers by id.
pub struct McpManager {
    config: McpConfig,
    servers: Vec<(String, ConnectedMcpServer)>,
}

impl McpManager {
    /// The registered servers, `(id, server)`, in registration order.
    pub closed spec fn servers(&self) -> Seq<(String, ConnectedMcpServer)> {
        self.servers@
    }

    pub open spec fn wf(&self) -> bool {
        names_unique(self.servers())
    }

    pub fn new(config: McpConfig) -> (r: Self)
        ensures
            r.wf(),
            r.servers().len() == 0,
    {
        McpManager { config, servers: Vec::new() }
    }

    /// Registers every enabled server of `config`, none of them connected.
    pub fn from_config(config: &McpConfig) -> (r: Self)
        ensures
            r.wf(),
            forall|i: int|
                0 <= i < r.servers().len() ==> #[trigger] r.servers()[i].1.config.enabled
                    && !r.servers()[i].1.connected,
    {
        let mut m = McpManager {
            config: McpConfig { servers: Vec::new(), enabled: config.enabled },
            servers: Vec::new(),
        };
        let mut i: usize = 0;
        while i < config.servers.len()
            invariant
                m.wf(),
                i <= config.servers@.len(),
                forall|j: int|
                    0 <= j < m.servers@.len() ==> #[trigger] m.servers@[j].1.config.enabled
                        && !m.servers@[j].1.connected,
            decreases config.servers@.len() - i,
        {
            if config.servers[i].1.enabled {
                let id = copy_string(&config.servers[i].0);
                let sc = copy_server_config(&config.servers[i].1);
                let sc2 = copy_server_config(&config.servers[i].1);
                let _ = m.add_server(id, sc);
                m.config.servers.push((copy_string(&config.servers[i].0), sc2));
            }
            i = i + 1;
        }
        m
    }

    /// Registers (or re-registers) the server `id`, not yet connected.
    pub fn add_server(&mut self, id: String, config: McpServerConfig) -> (r: Result<(), String>)
        requires
            old(self).wf(),
        ensures
            r is Ok,
            final(self).wf(),
            exists|s: ConnectedMcpServer|
                fresh_server(s, config) && final(self).servers() == upserted(
                    old(self).servers(),
                    (id, s),
                ),
    {
        let server = ConnectedMcpServer {
            endpoint: copy_string(&config.url),
            config,
            connected: false,
            capabilities: Vec::new(),
        };
        proof {
            assert(fresh_server(server, config));
        }
        upsert(&mut self.servers, (id, server));
        Ok(())
    }

    /// Records the outcome of connecting to `id`: the capabilities its
    /// manifest lists, or `None` when it could not be reached. Unknown ids
    /// are ignored.
    pub fn set_connection(&mut self, id: &str, capabilities: Option<Vec<String>>)
        requires
            old(self).wf(),
        ensures
            final(self).wf(),
            key_index(old(self).servers(), id@) < 0 ==> final(self).servers() == old(self).servers(),
            key_index(old(self).servers(), id@) >= 0 ==> {
                let k = key_index(old(self).servers(), id@);
                let e = old(self).servers()[k];
                &&& final(self).servers().len() == old(self).servers().len()
                &&& forall|i: int|
                    0 <= i < old(self).servers().len() && i != k ==> #[trigger] final(self).servers()[i] == old(self).servers()[i]
                &&& final(self).servers()[k].0 == e.0
                &&& final(self).servers()[k].1.config == e.1.config
                &&& final(self).servers()[k].1.endpoint == e.1.endpoint
                &&& final(self).servers()[k].1.connected == capabilities is Some
                &&& (capabilities is Some ==> final(self).servers()[k].1.capabilities
                    == capabilities->Some_0)
                &&& (capabilities is None ==> final(self).servers()[k].1.capabilities
                    == e.1.capabilities)
            },
    {
        let ghost s0 = self.servers@;
        match find_key(&self.servers, id) {
            None => {},
            Some(k) => {
                let mut e = self.servers.remove(k);
                match capabilities {
                    Some(c) => {
                        e.1.connected = true;
                        e.1.capabilities = c;
                    },
                    None => {
                        e.1.connected = false;
                    },
                }
                self.servers.insert(k, e);
                proof {
                    assert(self.servers@ =~= s0.update(k as int, e));
                    let s1 = self.servers@;
                    assert forall|a: int, b: int|
                        0 <= a < s1.len() && 0 <= b < s1.len() && a != b implies #[trigger] s1[a].0@
                        != #[trigger] s1[b].0@ by {
                        assert(s1[a].0@ == s0[a].0@);
                        assert(s1[b].0@ == s0[b].0@);
                    }
                }
            },
        }
    }

    /// Marks every server disconnected.
    pub fn disconnect_all(&mut self)
        requires
            old(self).wf(),
        ensures
            final(self).wf(),
            final(self).servers().len() == old(self).servers().len(),
            forall|i: int|
                0 <= i < old(self).servers().len() ==> {
                    &&& !(#[trigger] final(self).servers()[i]).1.connected
                    &&& final(self).servers()[i].0 == old(self).servers()[i].0
                    &&& final(self).servers()[i].1.config == old(self).servers()[i].1.config
                    &&& final(self).servers()[i].1.capabilities == old(self).servers()[i].1.capabilities
                },
    {
        let ghost s0 = self.servers@;
        let n = self.servers.len();
        let mut i: usize = 0;
        while i < n
            invariant
                n == s0.len(),
                self.servers@.len() == n,
                i <= n,
                forall|j: int|
                    0 <= j < n ==> {
                        &&& (#[trigger] self.servers@[j]).0 == s0[j].0
                        &&& self.servers@[j].1.config == s0[j].1.config
                        &&& self.servers@[j].1.capabilities == s0[j].1.capabilities
                        &&& (j < i ==> !self.servers@[j].1.connected)
                        &&& (j >= i ==> self.servers@[j] == s0[j])
                    },
            decreases n - i,
        {
            let mut e = self.servers.remove(i);
            e.1.connected = false;
            self.servers.insert(i, e);
            i = i + 1;
        }
        proof {
            let s1 = self.servers@;
            assert forall|a: int, b: int|
                0 <= a < s1.len() && 0 <= b < s1.len() && a != b implies #[trigger] s1[a].0@
                != #[trigger] s1[b].0@ by {
                assert(s1[a].0 == s0[a].0);
                assert(s1[b].0 == s0[b].0);
            }
        }
    }

    /// Ids of the connected servers, in registration order.
    pub fn get_connected_servers(&self) -> (r: Vec<String>)
        ensures
            r@.len() == connected_entries(self.servers()).len(),
            forall|i: int|
                0 <= i < r@.len() ==> #[trigger] r@[i]@ == connected_entries(self.servers())[i].0@,
    {
        let ghost s = self.servers@;
        let mut out: Vec<String> = Vec::new();
        let mut i: usize = 0;
        while i < self.servers.len()
            invariant
                s == self.servers@,
                i <= s.len(),
                out@.len() == connected_entries(s.subrange(0, i as int)).len(),
                forall|j: int|
                    0 <= j < out@.len() ==> #[trigger] out@[j]@ == connected_entries(
                        s.subrange(0, i as int),
                    )[j].0@,
            decreases s.len() - i,
        {
            proof {
                assert(s.subrange(0, i + 1).drop_last() =~= s.subrange(0, i as int));
                reveal(Seq::filter);
            }
            if self.servers[i].1.connected {
                out.push(copy_string(&self.servers[i].0));
            }
            i = i + 1;
        }
        proof {
            assert(s.subrange(0, i as int) =~= s);
        }
        out
    }

    /// Capabilities of the server `id`, if it is registered.
    pub fn get_server_capabilities(&self, id: &str) -> (r: Option<&Vec<String>>)
        requires
            self.wf(),
        ensures
            key_index(self.servers(), id@) < 0 ==> r is None,
            key_index(self.servers(), id@) >= 0 ==> r is Some && *r->Some_0 == self.servers()[key_index(
                self.servers(),
                id@,
            )].1.capabilities,
    {
        match find_key(&self.servers, id) {
            Some(k) => Some(&self.servers[k].1.capabilities),
            None => None,
        }
    }

    /// `(id, capabilities)` of each connected server, in registration order.
    pub fn list_tools(&self) -> (r: Vec<(String, Vec<String>)>)
        ensures
            r@.len() == connected_entries(self.servers()).len(),
            forall|i: int|
                0 <= i < r@.len() ==> (#[trigger] r@[i]).0@ == connected_entries(
                    self.servers(),
                )[i].0@ && r@[i].1@ == connected_entries(self.servers())[i].1.capabilities@,
    {
        let ghost s = self.servers@;
        let mut out: Vec<(String, Vec<String>)> = Vec::new();
        let mut i: usize = 0;
        while i < self.servers.len()
            invariant
                s == self.servers@,
                i <= s.len(),
                out@.len() == connected_entries(s.subrange(0, i as int)).len(),
                forall|j: int|
                    0 <= j < out@.len() ==> (#[trigger] out@[j]).0@ == connected_entries(
                        s.subrange(0, i as int),
                    )[j].0@ && out@[j].1@ == connected_entries(
                        s.subrange(0, i as int),
                    )[j].1.capabilities@,
            decreases s.len() - i,
        {
            proof {
                assert(s.subrange(0, i + 1).drop_last() =~= s.subrange(0, i as int));
                reveal(Seq::filter);
            }
            if self.servers[i].1.connected {
                out.push(
                    (copy_string(&self.servers[i].0), copy_strings(&self.servers[i].1.capabilities)),
                );
            }
            i = i + 1;
        }
        proof {
            assert(s.subrange(0, i as int) =~= s);
        }
        out
    }

    /// Where a tool call for `server_id` goes: the server's endpoint, or why
    /// the call cannot be made.
    pub fn call_target(&self, server_id: &str) -> (r: Result<String, String>)
        requires
            self.wf(),
        ensures
            key_index(self.servers(), server_id@) < 0 ==> r is Err && r->Err_0@ == "MCP server "@
                + server_id@ + " not found"@,
            key_index(self.servers(), server_id@) >= 0 ==> {
                let e = self.servers()[key_index(self.servers(), server_id@)];
                &&& e.1.connected ==> r is Ok && r->Ok_0@ == e.1.endpoint@
                &&& !e.1.connected ==> r is Err && r->Err_0@ == "MCP server "@ + server_id@
                    + " is not connected"@
            },
    {
        match find_key(&self.servers, server_id) {
            None => Err(String::from_str("MCP server ").concat(server_id).concat(" not found")),
            Some(k) => {
                if self.servers[k].1.connected {
                    Ok(copy_string(&self.servers[k].1.endpoint))
                } else {
                    Err(
                        String::from_str("MCP server ").concat(server_id).concat(
                            " is not connected",
                        ),
                    )
                }
            },
        }
    }
}

} // verus!
