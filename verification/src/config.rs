//! Platform configuration: sections with their defaults, validation and lookups.

use vstd::prelude::*;
use crate::error::{join3, AxonError};
use crate::models::{AgentDefinition, ModelDefinition, RateLimitConfig, RouteDefinition, ToolDefinition};
use crate::text::str_eq;

verus! {

#[derive(Debug, Clone)]
pub struct ServerConfig {
    pub addr: String,
    pub web_ui_enabled: bool,
    pub max_request_body_mb: usize,
    pub workers: usize,
}

pub fn default_addr() -> (s: String)
    ensures
        s@ == "0.0.0.0:8080"@,
{
    String::from_str("0.0.0.0:8080")
}

pub fn default_true() -> (b: bool)
    ensures
        b,
{
    true
}

pub fn default_max_body() -> (n: usize)
    ensures
        n == 10,
{
    10
}

pub fn default_workers() -> (n: usize)
    ensures
        n == 2,
{
    2
}

impl ServerConfig {
    pub open spec fn is_default(&self) -> bool {
        &&& self.addr@ == "0.0.0.0:8080"@
        &&& self.web_ui_enabled
        &&& self.max_request_body_mb == 10
        &&& self.workers == 2
    }
}

impl Default for ServerConfig {
    fn default() -> (c: Self)
        ensures
            c.is_default(),
    {
        ServerConfig {
            addr: default_addr(),
            web_ui_enabled: default_true(),
            max_request_body_mb: default_max_body(),
            workers: default_workers(),
        }
    }
}

#[derive(Debug, Clone, Copy, PartialEq, Eq, Structural)]
pub struct GatewayConfig {
    pub upstream_timeout_ms: u64,
    pub stream_timeout_ms: u64,
    pub retry_count: u32,
    pub retry_delay_ms: u64,
    pub pool_max_idle_per_host: usize,
}

pub fn default_upstream_timeout() -> (n: u64)
    ensures
        n == 120000,
{
    120000
}

pub fn default_stream_timeout() -> (n: u64)
    ensures
        n == 300000,
{
    300000
}

pub fn default_retry_count() -> (n: u32)
    ensures
        n == 2,
{
    2
}

pub fn default_retry_delay() -> (n: u64)
    ensures
        n == 1000,
{
    1000
}

pub fn default_pool_idle() -> (n: usize)
    ensures
        n == 5,
{
    5
}

impl Default for GatewayConfig {
    fn default() -> (c: Self)
        ensures
            c == (GatewayConfig {
                upstream_timeout_ms: 120000,
                stream_timeout_ms: 300000,
                retry_count: 2,
                retry_delay_ms: 1000,
                pool_max_idle_per_host: 5,
            }),
    {
        GatewayConfig {
            upstream_timeout_ms: default_upstream_timeout(),
            stream_timeout_ms: default_stream_timeout(),
            retry_count: default_retry_count(),
            retry_delay_ms: default_retry_delay(),
            pool_max_idle_per_host: default_pool_idle(),
        }
    }
}

#[derive(Debug, Clone)]
pub struct StorageConfig {
    pub sqlite_path: String,
    pub max_connections: u32,
}

pub fn default_sqlite_path() -> (s: String)
    ensures
        s@ == "axon.db"@,
{
    String::from_str("axon.db")
}

pub fn default_max_conn() -> (n: u32)
    ensures
        n == 5,
{
    5
}

impl Default for StorageConfig {
    fn default() -> (c: Self)
        ensures
            c.sqlite_path@ == "axon.db"@,
            c.max_connections == 5,
    {
        StorageConfig { sqlite_path: default_sqlite_path(), max_connections: default_max_conn() }
    }
}

#[derive(Debug, Clone)]
pub struct ObservabilityConfig {
    pub log_level: String,
    pub metrics_enabled: bool,
    pub access_log_enabled: bool,
}

pub fn default_log_level() -> (s: String)
    ensures
        s@ == "info"@,
{
    String::from_str("info")
}

impl Default for ObservabilityConfig {
    fn default() -> (c: Self)
        ensures
            c.log_level@ == "info"@,
            c.metrics_enabled,
            c.access_log_enabled,
    {
        ObservabilityConfig {
            log_level: default_log_level(),
            metrics_enabled: default_true(),
            access_log_enabled: default_true(),
        }
    }
}

/// The whole configuration file.
#[derive(Debug, Clone)]
pub struct AxonConfig {
    pub server: ServerConfig,
    pub gateway: GatewayConfig,
    pub storage: StorageConfig,
    pub observability: ObservabilityConfig,
    pub models: Vec<ModelDefinition>,
    pub routes: Vec<RouteDefinition>,
    pub agents: Vec<AgentDefinition>,
    pub tools: Vec<ToolDefinition>,
}

impl Default for AxonConfig {
    fn default() -> (c: Self)
        ensures
            c.server.is_default(),
            c.gateway == GatewayConfig::default_spec(),
            c.storage.sqlite_path@ == "axon.db"@,
            c.storage.max_connections == 5,
            c.observability.log_level@ == "info"@,
            c.observability.metrics_enabled,
            c.observability.access_log_enabled,
            c.models@.len() == 0,
            c.routes@.len() == 0,
            c.agents@.len() == 0,
            c.tools@.len() == 0,
    {
        AxonConfig {
            server: ServerConfig::default(),
            gateway: GatewayConfig::default(),
            storage: StorageConfig::default(),
            observability: ObservabilityConfig::default(),
            models: Vec::new(),
            routes: Vec::new(),
            agents: Vec::new(),
            tools: Vec::new(),
        }
    }
}

impl GatewayConfig {
    pub open spec fn default_spec() -> GatewayConfig {
        GatewayConfig {
            upstream_timeout_ms: 120000,
            stream_timeout_ms: 300000,
            retry_count: 2,
            retry_delay_ms: 1000,
            pool_max_idle_per_host: 5,
        }
    }
}

/// Index of the first element of `ids` equal to `id`.
pub open spec fn first_index(ids: Seq<Seq<char>>, id: Seq<char>) -> Option<int> {
    if exists|i: int| 0 <= i < ids.len() && ids[i] == id {
        Some(choose|i: int| 0 <= i < ids.len() && ids[i] == id && forall|j: int| 0 <= j < i ==> ids[j] != id)
    } else {
        None
    }
}

/// The first position `i` with `ids[i] == id` is unique: this is the one `first_index` names.
proof fn lemma_first_index(ids: Seq<Seq<char>>, id: Seq<char>, i: int)
    requires
        0 <= i < ids.len(),
        ids[i] == id,
        forall|j: int| 0 <= j < i ==> ids[j] != id,
    ensures
        first_index(ids, id) == Some(i),
{
    let k = choose|k: int| 0 <= k < ids.len() && ids[k] == id && forall|j: int| 0 <= j < k ==> ids[j] != id;
    assert(0 <= i < ids.len() && ids[i] == id && forall|j: int| 0 <= j < i ==> ids[j] != id);
    if k < i {
        assert(ids[k] != id);
    } else if i < k {
        assert(ids[i] != id);
    }
}

pub open spec fn agent_ids(agents: Seq<AgentDefinition>) -> Seq<Seq<char>> {
    agents.map_values(|a: AgentDefinition| a.id@)
}

pub open spec fn model_names(models: Seq<ModelDefinition>) -> Seq<Seq<char>> {
    models.map_values(|m: ModelDefinition| m.name@)
}

pub open spec fn route_names(routes: Seq<RouteDefinition>) -> Seq<Seq<char>> {
    routes.map_values(|r: RouteDefinition| r.name@)
}

/// The first error validation finds, if any.
pub open spec fn validation_failure(c: AxonConfig) -> Option<Seq<char>> {
    if c.server.addr@.len() == 0 {
        Some("server.addr is empty"@)
    } else if c.storage.sqlite_path@.len() == 0 {
        Some("storage.sqlite_path is empty"@)
    } else if exists|i: int| 0 <= i < c.agents@.len() && agent_invalid(c.agents@[i]) {
        let i = choose|i: int|
            0 <= i < c.agents@.len() && agent_invalid(c.agents@[i]) && forall|j: int|
                0 <= j < i ==> !agent_invalid(c.agents@[j]);
        Some(agent_failure(c.agents@[i]))
    } else {
        None
    }
}

pub open spec fn agent_invalid(a: AgentDefinition) -> bool {
    a.id@.len() == 0 || a.max_iterations == 0
}

pub open spec fn agent_failure(a: AgentDefinition) -> Seq<char> {
    if a.id@.len() == 0 {
        "agent.id is empty"@
    } else {
        "agent '"@ + a.id@ + "' has max_iterations=0"@
    }
}

impl AxonConfig {
    /// Checks the rules a configuration must meet: a listen address, a
    /// database path, and for each agent an id and at least one iteration.
    pub fn validate(&self) -> (r: Result<(), AxonError>)
        ensures
            match validation_failure(*self) {
                None => r is Ok,
                Some(msg) => r matches Err(AxonError::Validation(m)) && m@ == msg,
            },
    {
        if self.server.addr.as_str().is_empty() {
            return Err(AxonError::Validation(String::from_str("server.addr is empty")));
        }
        if self.storage.sqlite_path.as_str().is_empty() {
            return Err(AxonError::Validation(String::from_str("storage.sqlite_path is empty")));
        }
        let n = self.agents.len();
        let mut i: usize = 0;
        while i < n
            invariant
                n == self.agents@.len(),
                0 <= i <= n,
                self.server.addr@.len() != 0,
                self.storage.sqlite_path@.len() != 0,
                forall|j: int| 0 <= j < i ==> !agent_invalid(#[trigger] self.agents@[j]),
            decreases n - i,
        {
            let agent = &self.agents[i];
            if agent.id.as_str().is_empty() || agent.max_iterations == 0 {
                proof {
                    let k = choose|k: int|
                        0 <= k < self.agents@.len() && agent_invalid(self.agents@[k]) && forall|j: int|
                            0 <= j < k ==> !agent_invalid(self.agents@[j]);
                    assert(agent_invalid(self.agents@[i as int]));
                    if k < i {
                        assert(!agent_invalid(self.agents@[k]));
                    } else if i < k {
                        assert(!agent_invalid(self.agents@[i as int]));
                    }
                }
                if agent.id.as_str().is_empty() {
                    return Err(AxonError::Validation(String::from_str("agent.id is empty")));
                }
                return Err(AxonError::Validation(join3("agent '", agent.id.as_str(), "' has max_iterations=0")));
            }
            i = i + 1;
        }
        Ok(())
    }

    /// The first agent with the given id.
    pub fn find_agent(&self, id: &str) -> (r: Option<&AgentDefinition>)
        ensures
            match first_index(agent_ids(self.agents@), id@) {
                Some(i) => r == Some(&self.agents@[i]),
                None => r is None,
            },
    {
        let n = self.agents.len();
        let mut i: usize = 0;
        while i < n
            invariant
                n == self.agents@.len(),
                0 <= i <= n,
                forall|j: int| 0 <= j < i ==> self.agents@[j].id@ != id@,
            decreases n - i,
        {
            if str_eq(self.agents[i].id.as_str(), id) {
                proof {
                    lemma_first_index(agent_ids(self.agents@), id@, i as int);
                }
                return Some(&self.agents[i]);
            }
            i = i + 1;
        }
        proof {
            assert(!exists|j: int| 0 <= j < agent_ids(self.agents@).len() && agent_ids(self.agents@)[j] == id@);
        }
        None
    }

    /// The first model with the given name.
    pub fn find_model(&self, name: &str) -> (r: Option<&ModelDefinition>)
        ensures
            match first_index(model_names(self.models@), name@) {
                Some(i) => r == Some(&self.models@[i]),
                None => r is None,
            },
    {
        let n = self.models.len();
        let mut i: usize = 0;
        while i < n
            invariant
                n == self.models@.len(),
                0 <= i <= n,
                forall|j: int| 0 <= j < i ==> self.models@[j].name@ != name@,
            decreases n - i,
        {
            if str_eq(self.models[i].name.as_str(), name) {
                proof {
                    lemma_first_index(model_names(self.models@), name@, i as int);
                }
                return Some(&self.models[i]);
            }
            i = i + 1;
        }
        proof {
            assert(!exists|j: int| 0 <= j < model_names(self.models@).len() && model_names(self.models@)[j] == name@);
        }
        None
    }

    /// The first route with the given name.
    pub fn find_route(&self, name: &str) -> (r: Option<&RouteDefinition>)
        ensures
            match first_index(route_names(self.routes@), name@) {
                Some(i) => r == Some(&self.routes@[i]),
                None => r is None,
            },
    {
        let n = self.routes.len();
        let mut i: usize = 0;
        while i < n
            invariant
                n == self.routes@.len(),
                0 <= i <= n,
                forall|j: int| 0 <= j < i ==> self.routes@[j].name@ != name@,
            decreases n - i,
        {
            if str_eq(self.routes[i].name.as_str(), name) {
                proof {
                    lemma_first_index(route_names(self.routes@), name@, i as int);
                }
                return Some(&self.routes[i]);
            }
            i = i + 1;
        }
        proof {
            assert(!exists|j: int| 0 <= j < route_names(self.routes@).len() && route_names(self.routes@)[j] == name@);
        }
        None
    }

    /// A model named `reference`, else the model named by the first target
    /// of the route named `reference`.
    pub fn resolve_model(&self, reference: &str) -> (r: Option<&ModelDefinition>)
        ensures
            match resolved_model_index(*self, reference@) {
                Some(i) => r == Some(&self.models@[i]),
                None => r is None,
            },
    {
        if let Some(model) = self.find_model(reference) {
            return Some(model);
        }
        if let Some(route) = self.find_route(reference) {
            if route.targets.len() > 0 {
                return self.find_model(route.targets[0].model.as_str());
            }
        }
        None
    }

    /// The rate-limit key and limits for a reference: the name and the
    /// limits of the model that `resolve_model` finds, when it has limits.
    pub fn rate_limit_for(&self, reference: &str) -> (r: Option<(String, RateLimitConfig)>)
        ensures
            match resolved_model_index(*self, reference@) {
                Some(i) => match self.models@[i].rate_limit {
                    Some(l) => r matches Some(p) && p.0@ == self.models@[i].name@ && p.1 == l,
                    None => r is None,
                },
                None => r is None,
            },
    {
        match self.resolve_model(reference) {
            Some(m) => match m.rate_limit {
                Some(l) => Some((m.name.clone(), l)),
                None => None,
            },
            None => None,
        }
    }
}

/// The position of the model that `resolve_model` answers for a reference.
pub open spec fn resolved_model_index(c: AxonConfig, reference: Seq<char>) -> Option<int> {
    match first_index(model_names(c.models@), reference) {
        Some(i) => Some(i),
        None => match first_index(route_names(c.routes@), reference) {
            Some(ri) => if c.routes@[ri].targets@.len() > 0 {
                first_index(model_names(c.models@), c.routes@[ri].targets@[0].model@)
            } else {
                None
            },
            None => None,
        },
    }
}

/// The first position whose text is `id`, when there is one.
proof fn lemma_first_index_facts(ids: Seq<Seq<char>>, id: Seq<char>)
    ensures
        match first_index(ids, id) {
            Some(i) => 0 <= i < ids.len() && ids[i] == id && forall|j: int| 0 <= j < i ==> ids[j] != id,
            None => forall|j: int| 0 <= j < ids.len() ==> ids[j] != id,
        },
{
    if exists|i: int| 0 <= i < ids.len() && ids[i] == id {
        let i = choose|i: int| 0 <= i < ids.len() && ids[i] == id;
        lemma_least_index(ids, id, i);
    }
}

proof fn lemma_least_index(ids: Seq<Seq<char>>, id: Seq<char>, i: int)
    requires
        0 <= i < ids.len(),
        ids[i] == id,
    ensures
        exists|k: int| 0 <= k < ids.len() && ids[k] == id && forall|j: int| 0 <= j < k ==> ids[j] != id,
    decreases i,
{
    if exists|j: int| 0 <= j < i && ids[j] == id {
        let j = choose|j: int| 0 <= j < i && ids[j] == id;
        lemma_least_index(ids, id, j);
    } else {
        assert(0 <= i < ids.len() && ids[i] == id && forall|j: int| 0 <= j < i ==> ids[j] != id);
    }
}

/// A reference that names a model resolves to the first model of that
/// name.
pub proof fn lemma_model_reference_resolves_to_model(c: AxonConfig, reference: Seq<char>, i: int)
    requires
        0 <= i < c.models@.len(),
        c.models@[i].name@ == reference,
        forall|j: int| 0 <= j < i ==> c.models@[j].name@ != reference,
    ensures
        resolved_model_index(c, reference) == Some(i),
{
    assert(model_names(c.models@)[i] == reference);
    assert forall|j: int| 0 <= j < i implies model_names(c.models@)[j] != reference by {
        assert(model_names(c.models@)[j] == c.models@[j].name@);
    }
    lemma_first_index(model_names(c.models@), reference, i);
}

/// A reference that names no model but names a route resolves through the
/// first route of that name: to the first model named by the route's first
/// target, to nothing when no model has that name or the route has no
/// targets.
pub proof fn lemma_route_reference_resolves_to_first_target(c: AxonConfig, reference: Seq<char>, ri: int)
    requires
        forall|j: int| 0 <= j < c.models@.len() ==> c.models@[j].name@ != reference,
        0 <= ri < c.routes@.len(),
        c.routes@[ri].name@ == reference,
        forall|j: int| 0 <= j < ri ==> c.routes@[j].name@ != reference,
    ensures
        c.routes@[ri].targets@.len() == 0 ==> resolved_model_index(c, reference) is None,
        c.routes@[ri].targets@.len() > 0 ==> match resolved_model_index(c, reference) {
            Some(i) => {
                &&& 0 <= i < c.models@.len()
                &&& c.models@[i].name@ == c.routes@[ri].targets@[0].model@
                &&& forall|j: int| 0 <= j < i ==> c.models@[j].name@ != c.routes@[ri].targets@[0].model@
            },
            None => forall|j: int| 0 <= j < c.models@.len() ==> c.models@[j].name@ != c.routes@[ri].targets@[0].model@,
        },
{
    let names = model_names(c.models@);
    assert forall|j: int| 0 <= j < names.len() implies names[j] != reference by {
        assert(names[j] == c.models@[j].name@);
    }
    lemma_first_index_facts(names, reference);
    assert(route_names(c.routes@)[ri] == reference);
    assert forall|j: int| 0 <= j < ri implies route_names(c.routes@)[j] != reference by {
        assert(route_names(c.routes@)[j] == c.routes@[j].name@);
    }
    lemma_first_index(route_names(c.routes@), reference, ri);
    if c.routes@[ri].targets@.len() > 0 {
        let t = c.routes@[ri].targets@[0].model@;
        lemma_first_index_facts(names, t);
        assert(first_index(names, reference) is None);
        assert(resolved_model_index(c, reference) == first_index(names, t));
        assert(names.len() == c.models@.len());
        match first_index(names, t) {
            Some(i) => {
                assert(names[i] == c.models@[i].name@);
                assert forall|j: int| 0 <= j < i implies c.models@[j].name@ != t by {
                    assert(names[j] == c.models@[j].name@);
                }
            },
            None => {
                assert forall|j: int| 0 <= j < c.models@.len() implies c.models@[j].name@ != t by {
                    assert(names[j] == c.models@[j].name@);
                }
            },
        }
    }
}

/// A reference that names neither a model nor a route resolves to nothing.
pub proof fn lemma_unknown_reference_resolves_to_nothing(c: AxonConfig, reference: Seq<char>)
    requires
        forall|j: int| 0 <= j < c.models@.len() ==> c.models@[j].name@ != reference,
        forall|j: int| 0 <= j < c.routes@.len() ==> c.routes@[j].name@ != reference,
    ensures
        resolved_model_index(c, reference) is None,
{
    assert forall|j: int| 0 <= j < model_names(c.models@).len() implies model_names(c.models@)[j] != reference by {
        assert(model_names(c.models@)[j] == c.models@[j].name@);
    }
    assert forall|j: int| 0 <= j < route_names(c.routes@).len() implies route_names(c.routes@)[j] != reference by {
        assert(route_names(c.routes@)[j] == c.routes@[j].name@);
    }
    lemma_first_index_facts(model_names(c.models@), reference);
    lemma_first_index_facts(route_names(c.routes@), reference);
}

/// The extension `std::path::Path` finds in a path, as text.
pub uninterp spec fn extension_of(path: Seq<char>) -> Option<Seq<char>>;

/// The extension of the path's file name, when it has one that is valid
/// Unicode.
/// Trusted: `std::path::Path::extension` and `OsStr::to_str`; the result
/// depends on the path alone and is named `extension_of`.
#[verifier::external_body]
fn path_extension(path: &str) -> (e: Option<String>)
    ensures
        match e {
            Some(x) => extension_of(path@) == Some(x@),
            None => extension_of(path@) is None,
        },
{
    std::path::Path::new(path).extension().and_then(|x| x.to_str()).map(String::from)
}

/// How a configuration file is written.
#[derive(Debug, Clone, Copy, PartialEq, Eq, Structural)]
pub enum ConfigFormat {
    Json,
    Yaml,
}

/// JSON for the extension `json`, YAML for any other or none.
pub fn format_for_extension(ext: Option<&str>) -> (f: ConfigFormat)
    ensures
        (f == ConfigFormat::Json) == (ext matches Some(e) && e@ == "json"@),
{
    match ext {
        Some(e) => if str_eq(e, "json") {
            ConfigFormat::Json
        } else {
            ConfigFormat::Yaml
        },
        None => ConfigFormat::Yaml,
    }
}

impl AxonConfig {
    /// How the file at `path` is read: by the extension of its name.
    pub fn format_for_path(path: &str) -> (f: ConfigFormat)
        ensures
            (f == ConfigFormat::Json) == (extension_of(path@) == Some("json"@)),
    {
        match path_extension(path) {
            Some(e) => format_for_extension(Some(e.as_str())),
            None => format_for_extension(None),
        }
    }

    /// Replaces the listen address when one is given.
    pub fn override_addr(&mut self, addr: Option<String>)
        ensures
            final(self).server.addr == match addr {
                Some(a) => a,
                None => old(self).server.addr,
            },
            final(self).server.web_ui_enabled == old(self).server.web_ui_enabled,
            final(self).server.max_request_body_mb == old(self).server.max_request_body_mb,
            final(self).server.workers == old(self).server.workers,
            final(self).gateway == old(self).gateway,
            final(self).storage == old(self).storage,
            final(self).observability == old(self).observability,
            final(self).models == old(self).models,
            final(self).routes == old(self).routes,
            final(self).agents == old(self).agents,
            final(self).tools == old(self).tools,
    {
        if let Some(a) = addr {
            self.server.addr = a;
        }
    }
}

/// The log level: the one given on the command line, else the one in the
/// environment, else `info`.
pub fn choose_log_level(cli: Option<String>, env: Option<String>) -> (l: String)
    ensures
        l@ == match cli {
            Some(c) => c@,
            None => match env {
                Some(e) => e@,
                None => "info"@,
            },
        },
{
    match cli {
        Some(c) => c,
        None => match env {
            Some(e) => e,
            None => String::from_str("info"),
        },
    }
}

} // verus!
