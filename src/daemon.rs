use std::time::Duration;
use vstd::prelude::*;

verus! {

/// Capacity of the mesh's shared incoming queue.
pub const MESH_INCOMING_CAPACITY: usize = 512;

/// Capacity of each connection's outgoing queue in the mesh.
pub const MESH_OUTGOING_CAPACITY: usize = 128;

/// Relies on `Duration::from_secs`: builds a duration; nothing about its value is used.
pub assume_specification[ core::time::Duration::from_secs ](secs: u64) -> (r: Duration);

/// Error returned when a daemon cannot be built from its configuration.
#[derive(Debug)]
pub enum CreateError {
    MissingRequiredField(String),
}

impl CreateError {
    /// The human-readable description of the error.
    pub fn message(&self) -> (r: String)
        ensures
            match self {
                CreateError::MissingRequiredField(m) => r@ == "missing required field: "@ + m@,
            },
    {
        match self {
            CreateError::MissingRequiredField(m) => {
                String::from_str("missing required field: ").concat(m.as_str())
            },
        }
    }
}

/// The validated configuration of a node, ready to be started.
pub struct SplinterDaemon {
    pub state_dir: String,
    pub service_endpoint: String,
    pub network_endpoints: Vec<String>,
    pub advertised_endpoints: Vec<String>,
    pub initial_peers: Vec<String>,
    pub node_id: String,
    pub display_name: String,
    pub rest_api_endpoint: String,
    pub rest_api_ssl_settings: Option<(String, String)>,
    pub db_url: Option<String>,
    pub enable_biome: bool,
    pub registries: Vec<String>,
    pub registry_auto_refresh: u64,
    pub registry_forced_refresh: u64,
    pub storage_type: Option<String>,
    pub admin_timeout: Duration,
    pub whitelist: Option<Vec<String>>,
    pub oauth_provider: Option<String>,
    pub oauth_client_id: Option<String>,
    pub oauth_client_secret: Option<String>,
    pub oauth_redirect_url: Option<String>,
    pub oauth_openid_url: Option<String>,
    pub heartbeat: u64,
    pub strict_ref_counts: bool,
    pub mesh_incoming_capacity: usize,
    pub mesh_outgoing_capacity: usize,
}

/// Collects a node's configuration; `build` checks that it is complete.
pub struct SplinterDaemonBuilder {
    pub state_dir: Option<String>,
    pub service_endpoint: Option<String>,
    pub network_endpoints: Option<Vec<String>>,
    pub advertised_endpoints: Option<Vec<String>>,
    pub initial_peers: Option<Vec<String>>,
    pub node_id: Option<String>,
    pub display_name: Option<String>,
    pub rest_api_endpoint: Option<String>,
    pub rest_api_server_cert: Option<String>,
    pub rest_api_server_key: Option<String>,
    pub db_url: Option<String>,
    pub enable_biome: bool,
    pub registries: Vec<String>,
    pub registry_auto_refresh: Option<u64>,
    pub registry_forced_refresh: Option<u64>,
    pub storage_type: Option<String>,
    pub heartbeat: Option<u64>,
    pub admin_timeout: Duration,
    pub whitelist: Option<Vec<String>>,
    pub oauth_provider: Option<String>,
    pub oauth_client_id: Option<String>,
    pub oauth_client_secret: Option<String>,
    pub oauth_redirect_url: Option<String>,
    pub oauth_openid_url: Option<String>,
    pub strict_ref_counts: Option<bool>,
}

/// The message of the first configuration problem that `build` reports, if any.
pub open spec fn build_failure(b: SplinterDaemonBuilder) -> Option<Seq<char>> {
    if b.heartbeat is None {
        Some("Missing field: heartbeat"@)
    } else if b.node_id is None {
        Some("Missing field: node_id"@)
    } else if b.state_dir is None {
        Some("Missing field: state_dir"@)
    } else if b.service_endpoint is None {
        Some("Missing field: service_endpoint"@)
    } else if b.network_endpoints is None {
        Some("Missing field: network_endpoints"@)
    } else if b.advertised_endpoints is None {
        Some("Missing field: advertised_endpoints"@)
    } else if b.initial_peers is None {
        Some("Missing field: initial_peers"@)
    } else if b.display_name is None {
        Some("Missing field: display_name"@)
    } else if b.rest_api_endpoint is None {
        Some("Missing field: rest_api_endpoint"@)
    } else if b.rest_api_server_cert is Some != b.rest_api_server_key is Some {
        Some("Both rest_api_server_cert and rest_api_server_key must be set"@)
    } else if b.enable_biome && b.db_url is None {
        Some("db_url is required to enable biome features."@)
    } else if b.registry_auto_refresh is None {
        Some("Missing field: registry_auto_refresh"@)
    } else if b.registry_forced_refresh is None {
        Some("Missing field: registry_forced_refresh"@)
    } else if b.strict_ref_counts is None {
        Some("Missing field: strict_ref_counts"@)
    } else {
        None
    }
}

/// The configuration that `build` produces from a complete builder.
pub open spec fn built_daemon(b: SplinterDaemonBuilder) -> SplinterDaemon {
    SplinterDaemon {
        state_dir: b.state_dir.unwrap(),
        service_endpoint: b.service_endpoint.unwrap(),
        network_endpoints: b.network_endpoints.unwrap(),
        advertised_endpoints: b.advertised_endpoints.unwrap(),
        initial_peers: b.initial_peers.unwrap(),
        node_id: b.node_id.unwrap(),
        display_name: b.display_name.unwrap(),
        rest_api_endpoint: b.rest_api_endpoint.unwrap(),
        rest_api_ssl_settings: if b.rest_api_server_cert is Some {
            Some((b.rest_api_server_cert.unwrap(), b.rest_api_server_key.unwrap()))
        } else {
            None
        },
        db_url: b.db_url,
        enable_biome: b.enable_biome,
        registries: b.registries,
        registry_auto_refresh: b.registry_auto_refresh.unwrap(),
        registry_forced_refresh: b.registry_forced_refresh.unwrap(),
        storage_type: b.storage_type,
        admin_timeout: b.admin_timeout,
        whitelist: b.whitelist,
        oauth_provider: b.oauth_provider,
        oauth_client_id: b.oauth_client_id,
        oauth_client_secret: b.oauth_client_secret,
        oauth_redirect_url: b.oauth_redirect_url,
        oauth_openid_url: b.oauth_openid_url,
        heartbeat: b.heartbeat.unwrap(),
        strict_ref_counts: b.strict_ref_counts.unwrap(),
        mesh_incoming_capacity: MESH_INCOMING_CAPACITY,
        mesh_outgoing_capacity: MESH_OUTGOING_CAPACITY,
    }
}

fn missing(field: &str) -> (r: CreateError)
    ensures
        match r {
            CreateError::MissingRequiredField(m) => m@ == field@,
        },
{
    CreateError::MissingRequiredField(String::from_str(field))
}

impl SplinterDaemonBuilder {
    /// An empty configuration.
    pub fn new() -> (r: Self)
        ensures
            r.state_dir is None,
            r.service_endpoint is None,
            r.network_endpoints is None,
            r.advertised_endpoints is None,
            r.initial_peers is None,
            r.node_id is None,
            r.display_name is None,
            r.rest_api_endpoint is None,
            r.rest_api_server_cert is None,
            r.rest_api_server_key is None,
            r.db_url is None,
            !r.enable_biome,
            r.registries@.len() == 0,
            r.registry_auto_refresh is None,
            r.registry_forced_refresh is None,
            r.storage_type is None,
            r.heartbeat is None,
            r.whitelist is None,
            r.oauth_provider is None,
            r.oauth_client_id is None,
            r.oauth_client_secret is None,
            r.oauth_redirect_url is None,
            r.oauth_openid_url is None,
            r.strict_ref_counts is None,
    {
        SplinterDaemonBuilder {
            state_dir: None,
            service_endpoint: None,
            network_endpoints: None,
            advertised_endpoints: None,
            initial_peers: None,
            node_id: None,
            display_name: None,
            rest_api_endpoint: None,
            rest_api_server_cert: None,
            rest_api_server_key: None,
            db_url: None,
            enable_biome: false,
            registries: Vec::new(),
            registry_auto_refresh: None,
            registry_forced_refresh: None,
            storage_type: None,
            heartbeat: None,
            admin_timeout: Duration::from_secs(0),
            whitelist: None,
            oauth_provider: None,
            oauth_client_id: None,
            oauth_client_secret: None,
            oauth_redirect_url: None,
            oauth_openid_url: None,
            strict_ref_counts: None,
        }
    }

    /// Sets the directory that holds the node's persisted state.
    pub fn with_state_dir(self, value: String) -> (r: Self)
        ensures
            r == (Self { state_dir: Some(value), ..self }),
    {
        let mut b = self;
        b.state_dir = Some(value);
        b
    }

    /// Sets the endpoint on which external services connect.
    pub fn with_service_endpoint(self, value: String) -> (r: Self)
        ensures
            r == (Self { service_endpoint: Some(value), ..self }),
    {
        let mut b = self;
        b.service_endpoint = Some(value);
        b
    }

    /// Sets the endpoints on which peer nodes connect.
    pub fn with_network_endpoints(self, value: Vec<String>) -> (r: Self)
        ensures
            r == (Self { network_endpoints: Some(value), ..self }),
    {
        let mut b = self;
        b.network_endpoints = Some(value);
        b
    }

    /// Sets the endpoints that are advertised to other nodes.
    pub fn with_advertised_endpoints(self, value: Vec<String>) -> (r: Self)
        ensures
            r == (Self { advertised_endpoints: Some(value), ..self }),
    {
        let mut b = self;
        b.advertised_endpoints = Some(value);
        b
    }

    /// Sets the endpoints of the peers to connect to at startup.
    pub fn with_initial_peers(self, value: Vec<String>) -> (r: Self)
        ensures
            r == (Self { initial_peers: Some(value), ..self }),
    {
        let mut b = self;
        b.initial_peers = Some(value);
        b
    }

    /// Sets the node's identity.
    pub fn with_node_id(self, value: String) -> (r: Self)
        ensures
            r == (Self { node_id: Some(value), ..self }),
    {
        let mut b = self;
        b.node_id = Some(value);
        b
    }

    /// Sets the node's human-readable name.
    pub fn with_display_name(self, value: String) -> (r: Self)
        ensures
            r == (Self { display_name: Some(value), ..self }),
    {
        let mut b = self;
        b.display_name = Some(value);
        b
    }

    /// Sets the endpoint of the REST API.
    pub fn with_rest_api_endpoint(self, value: String) -> (r: Self)
        ensures
            r == (Self { rest_api_endpoint: Some(value), ..self }),
    {
        let mut b = self;
        b.rest_api_endpoint = Some(value);
        b
    }

    /// Sets the path of the REST API's server certificate.
    pub fn with_rest_api_server_cert(self, value: String) -> (r: Self)
        ensures
            r == (Self { rest_api_server_cert: Some(value), ..self }),
    {
        let mut b = self;
        b.rest_api_server_cert = Some(value);
        b
    }

    /// Sets the path of the REST API's server key.
    pub fn with_rest_api_server_key(self, value: String) -> (r: Self)
        ensures
            r == (Self { rest_api_server_key: Some(value), ..self }),
    {
        let mut b = self;
        b.rest_api_server_key = Some(value);
        b
    }

    /// Sets, or clears, the database URL.
    pub fn with_db_url(self, value: Option<String>) -> (r: Self)
        ensures
            r == (Self { db_url: value, ..self }),
    {
        let mut b = self;
        b.db_url = value;
        b
    }

    /// Turns the user-management routes on or off.
    pub fn enable_biome(self, enabled: bool) -> (r: Self)
        ensures
            r == (Self { enable_biome: enabled, ..self }),
    {
        let mut b = self;
        b.enable_biome = enabled;
        b
    }

    /// Sets the read-only registries to load, as URIs.
    pub fn with_registries(self, registries: Vec<String>) -> (r: Self)
        ensures
            r == (Self { registries: registries, ..self }),
    {
        let mut b = self;
        b.registries = registries;
        b
    }

    /// Sets the automatic refresh interval of remote registries, in seconds (0 turns it off).
    pub fn with_registry_auto_refresh(self, value: u64) -> (r: Self)
        ensures
            r == (Self { registry_auto_refresh: Some(value), ..self }),
    {
        let mut b = self;
        b.registry_auto_refresh = Some(value);
        b
    }

    /// Sets the forced refresh interval of remote registries, in seconds (0 turns it off).
    pub fn with_registry_forced_refresh(self, value: u64) -> (r: Self)
        ensures
            r == (Self { registry_forced_refresh: Some(value), ..self }),
    {
        let mut b = self;
        b.registry_forced_refresh = Some(value);
        b
    }

    /// Sets, or clears, the storage type of the admin service's state.
    pub fn with_storage_type(self, value: Option<String>) -> (r: Self)
        ensures
            r == (Self { storage_type: value, ..self }),
    {
        let mut b = self;
        b.storage_type = value;
        b
    }

    /// Sets the heartbeat interval, in seconds.
    pub fn with_heartbeat(self, value: u64) -> (r: Self)
        ensures
            r == (Self { heartbeat: Some(value), ..self }),
    {
        let mut b = self;
        b.heartbeat = Some(value);
        b
    }

    /// Sets the timeout of admin service proposals.
    pub fn with_admin_timeout(self, value: Duration) -> (r: Self)
        ensures
            r == (Self { admin_timeout: value, ..self }),
    {
        let mut b = self;
        b.admin_timeout = value;
        b
    }

    /// Sets, or clears, the domains allowed by CORS.
    pub fn with_whitelist(self, value: Option<Vec<String>>) -> (r: Self)
        ensures
            r == (Self { whitelist: value, ..self }),
    {
        let mut b = self;
        b.whitelist = value;
        b
    }

    /// Sets, or clears, the OAuth provider name.
    pub fn with_oauth_provider(self, value: Option<String>) -> (r: Self)
        ensures
            r == (Self { oauth_provider: value, ..self }),
    {
        let mut b = self;
        b.oauth_provider = value;
        b
    }

    /// Sets, or clears, the OAuth client ID.
    pub fn with_oauth_client_id(self, value: Option<String>) -> (r: Self)
        ensures
            r == (Self { oauth_client_id: value, ..self }),
    {
        let mut b = self;
        b.oauth_client_id = value;
        b
    }

    /// Sets, or clears, the OAuth client secret.
    pub fn with_oauth_client_secret(self, value: Option<String>) -> (r: Self)
        ensures
            r == (Self { oauth_client_secret: value, ..self }),
    {
        let mut b = self;
        b.oauth_client_secret = value;
        b
    }

    /// Sets, or clears, the OAuth redirect URL.
    pub fn with_oauth_redirect_url(self, value: Option<String>) -> (r: Self)
        ensures
            r == (Self { oauth_redirect_url: value, ..self }),
    {
        let mut b = self;
        b.oauth_redirect_url = value;
        b
    }

    /// Sets, or clears, the OpenID discovery document URL.
    pub fn with_oauth_openid_url(self, value: Option<String>) -> (r: Self)
        ensures
            r == (Self { oauth_openid_url: value, ..self }),
    {
        let mut b = self;
        b.oauth_openid_url = value;
        b
    }

    /// Sets whether releasing an unheld peer reference is fatal.
    pub fn with_strict_ref_counts(self, strict_ref_counts: bool) -> (r: Self)
        ensures
            r == (Self { strict_ref_counts: Some(strict_ref_counts), ..self }),
    {
        let mut b = self;
        b.strict_ref_counts = Some(strict_ref_counts);
        b
    }

    /// Checks that the configuration is complete and consistent and turns it into a daemon
    /// configuration; the error names the first problem found.
    pub fn build(self) -> (r: Result<SplinterDaemon, CreateError>)
        ensures
            match r {
                Ok(d) => build_failure(self) is None && d == built_daemon(self),
                Err(CreateError::MissingRequiredField(m)) => build_failure(self) == Some(m@),
            },
    {
        let heartbeat = match self.heartbeat {
            Some(v) => v,
            None => return Err(missing("Missing field: heartbeat")),
        };
        let node_id = match self.node_id {
            Some(v) => v,
            None => return Err(missing("Missing field: node_id")),
        };
        let state_dir = match self.state_dir {
            Some(v) => v,
            None => return Err(missing("Missing field: state_dir")),
        };
        let service_endpoint = match self.service_endpoint {
            Some(v) => v,
            None => return Err(missing("Missing field: service_endpoint")),
        };
        let network_endpoints = match self.network_endpoints {
            Some(v) => v,
            None => return Err(missing("Missing field: network_endpoints")),
        };
        let advertised_endpoints = match self.advertised_endpoints {
            Some(v) => v,
            None => return Err(missing("Missing field: advertised_endpoints")),
        };
        let initial_peers = match self.initial_peers {
            Some(v) => v,
            None => return Err(missing("Missing field: initial_peers")),
        };
        let display_name = match self.display_name {
            Some(v) => v,
            None => return Err(missing("Missing field: display_name")),
        };
        let rest_api_endpoint = match self.rest_api_endpoint {
            Some(v) => v,
            None => return Err(missing("Missing field: rest_api_endpoint")),
        };
        let rest_api_ssl_settings = match (self.rest_api_server_cert, self.rest_api_server_key) {
            (Some(cert), Some(key)) => Some((cert, key)),
            (None, None) => None,
            _ => {
                return Err(
                    missing("Both rest_api_server_cert and rest_api_server_key must be set"),
                )
            },
        };
        if self.enable_biome && self.db_url.is_none() {
            return Err(missing("db_url is required to enable biome features."));
        }
        let registry_auto_refresh = match self.registry_auto_refresh {
            Some(v) => v,
            None => return Err(missing("Missing field: registry_auto_refresh")),
        };
        let registry_forced_refresh = match self.registry_forced_refresh {
            Some(v) => v,
            None => return Err(missing("Missing field: registry_forced_refresh")),
        };
        let strict_ref_counts = match self.strict_ref_counts {
            Some(v) => v,
            None => return Err(missing("Missing field: strict_ref_counts")),
        };
        Ok(
            SplinterDaemon {
                state_dir,
                service_endpoint,
                network_endpoints,
                advertised_endpoints,
                initial_peers,
                node_id,
                display_name,
                rest_api_endpoint,
                rest_api_ssl_settings,
                db_url: self.db_url,
                enable_biome: self.enable_biome,
                registries: self.registries,
                registry_auto_refresh,
                registry_forced_refresh,
                storage_type: self.storage_type,
                admin_timeout: self.admin_timeout,
                whitelist: self.whitelist,
                oauth_provider: self.oauth_provider,
                oauth_client_id: self.oauth_client_id,
                oauth_client_secret: self.oauth_client_secret,
                oauth_redirect_url: self.oauth_redirect_url,
                oauth_openid_url: self.oauth_openid_url,
                heartbeat,
                strict_ref_counts,
                mesh_incoming_capacity: MESH_INCOMING_CAPACITY,
                mesh_outgoing_capacity: MESH_OUTGOING_CAPACITY,
            },
        )
    }
}


/// Error returned when a daemon fails to start.
#[derive(Debug)]
pub enum StartError {
    TransportError(String),
    NetworkError(String),
    StorageError(String),
    ProtocolError(String),
    RestApiError(String),
    RegistryError(String),
    AdminServiceError(String),
    HealthServiceError(String),
    OrchestratorError(String),
}

/// The prefix of the description of each kind of start error.
pub open spec fn start_error_prefix(e: StartError) -> Seq<char> {
    match e {
        StartError::TransportError(_) => "transport returned an error: "@,
        StartError::NetworkError(_) => "network returned an error: "@,
        StartError::StorageError(_) => "unable to set up storage: "@,
        StartError::ProtocolError(_) => "unable to parse protocol: "@,
        StartError::RestApiError(_) => "REST API encountered an error: "@,
        StartError::RegistryError(_) => "unable to setup registry: "@,
        StartError::AdminServiceError(_) => "the admin service encountered an error: "@,
        StartError::HealthServiceError(_) => "the health service encountered an error: "@,
        StartError::OrchestratorError(_) => "the orchestrator encountered an error: "@,
    }
}

impl StartError {
    /// The detail carried by the error.
    pub open spec fn detail(&self) -> Seq<char> {
        match self {
            StartError::TransportError(m) => m@,
            StartError::NetworkError(m) => m@,
            StartError::StorageError(m) => m@,
            StartError::ProtocolError(m) => m@,
            StartError::RestApiError(m) => m@,
            StartError::RegistryError(m) => m@,
            StartError::AdminServiceError(m) => m@,
            StartError::HealthServiceError(m) => m@,
            StartError::OrchestratorError(m) => m@,
        }
    }

    /// The human-readable description of the error.
    pub fn message(&self) -> (r: String)
        ensures
            r@ == start_error_prefix(*self) + self.detail(),
    {
        match self {
            StartError::TransportError(m) => String::from_str("transport returned an error: ").concat(
                m.as_str(),
            ),
            StartError::NetworkError(m) => String::from_str("network returned an error: ").concat(
                m.as_str(),
            ),
            StartError::StorageError(m) => String::from_str("unable to set up storage: ").concat(
                m.as_str(),
            ),
            StartError::ProtocolError(m) => String::from_str("unable to parse protocol: ").concat(
                m.as_str(),
            ),
            StartError::RestApiError(m) => String::from_str("REST API encountered an error: ").concat(
                m.as_str(),
            ),
            StartError::RegistryError(m) => String::from_str("unable to setup registry: ").concat(
                m.as_str(),
            ),
            StartError::AdminServiceError(m) => String::from_str(
                "the admin service encountered an error: ",
            ).concat(m.as_str()),
            StartError::HealthServiceError(m) => String::from_str(
                "the health service encountered an error: ",
            ).concat(m.as_str()),
            StartError::OrchestratorError(m) => String::from_str(
                "the orchestrator encountered an error: ",
            ).concat(m.as_str()),
        }
    }
}

/// `name` inside directory `dir`.
pub open spec fn join_path_spec(dir: Seq<char>, name: Seq<char>) -> Seq<char> {
    if dir.len() == 0 {
        name
    } else if dir.last() == '/' {
        dir + name
    } else {
        dir + seq!['/'] + name
    }
}

/// `name` inside directory `dir`.
pub fn join_path(dir: &str, name: &str) -> (r: String)
    ensures
        r@ == join_path_spec(dir@, name@),
{
    let n = dir.unicode_len();
    if n == 0 {
        return name.to_owned();
    }
    if dir.get_char(n - 1) == '/' {
        dir.to_owned().concat(name)
    } else {
        let with_slash = dir.to_owned().concat("/");
        proof {
            reveal_strlit("/");
        }
        with_slash.concat(name)
    }
}

/// Where the admin service keeps its state.
pub enum AdminStoreChoice {
    /// YAML files for circuits and for circuit proposals.
    Yaml { circuits_path: String, proposals_path: String },
    /// In memory.
    Memory,
    /// In the database at the given URL.
    Database(String),
}

/// Whether two strings hold the same characters.
pub fn str_eq(a: &str, b: &str) -> (r: bool)
    ensures
        r == (a@ == b@),
{
    a.to_owned() == b.to_owned()
}

/// How the REST API binds.
pub enum RestApiBind {
    Insecure(String),
    Secure { bind: String, cert_path: String, key_path: String },
}

/// An OAuth provider configuration.
pub enum OAuthSettings {
    Azure { client_id: String, client_secret: String, redirect_url: String, openid_url: String },
    GitHub { client_id: String, client_secret: String, redirect_url: String },
    Google { client_id: String, client_secret: String, redirect_url: String },
    OpenId { client_id: String, client_secret: String, redirect_url: String, openid_url: String },
}

/// The first problem with a daemon's OAuth configuration, if any.
pub open spec fn oauth_problem(d: SplinterDaemon) -> Option<Seq<char>> {
    if !(d.oauth_provider is Some || d.oauth_client_id is Some || d.oauth_client_secret is Some
        || d.oauth_redirect_url is Some) {
        None
    } else if d.oauth_provider is None {
        Some("missing OAuth provider configuration"@)
    } else if d.oauth_client_id is None {
        Some("missing OAuth client ID configuration"@)
    } else if d.oauth_client_secret is None {
        Some("missing OAuth client secret configuration"@)
    } else if d.oauth_redirect_url is None {
        Some("missing OAuth redirect URL configuration"@)
    } else {
        let p = d.oauth_provider.unwrap()@;
        if p == "azure"@ || p == "openid"@ {
            if d.oauth_openid_url is None {
                Some("missing OAuth OpenID discovery document URL configuration"@)
            } else {
                None
            }
        } else if p == "github"@ || p == "google"@ {
            None
        } else {
            Some("invalid OAuth provider: "@ + p)
        }
    }
}

/// The services hosted in process, as `(endpoint, identity)` pairs.
pub open spec fn inproc_ids_spec(node_id: Seq<char>) -> Seq<(Seq<char>, Seq<char>)> {
    seq![
        ("inproc://orchestator"@, "orchestator::"@ + node_id),
        ("inproc://admin-service"@, "admin::"@ + node_id),
        ("inproc://health-service"@, "health::"@ + node_id),
    ]
}

/// The components of a running node.
#[derive(Clone, Copy, Debug, PartialEq, Eq, Structural)]
pub enum Component {
    RestApi,
    AdminService,
    Orchestrator,
    PeerManager,
    ConnectionManager,
    DispatchLoops,
    Mesh,
}

/// The order in which a node's components are shut down: the reverse of startup.
pub open spec fn shutdown_order_spec() -> Seq<Component> {
    seq![
        Component::RestApi,
        Component::AdminService,
        Component::Orchestrator,
        Component::PeerManager,
        Component::ConnectionManager,
        Component::DispatchLoops,
        Component::Mesh,
    ]
}

/// The order in which a node's components are shut down.
pub fn shutdown_order() -> (r: Vec<Component>)
    ensures
        r@ == shutdown_order_spec(),
{
    let r = vec![
        Component::RestApi,
        Component::AdminService,
        Component::Orchestrator,
        Component::PeerManager,
        Component::ConnectionManager,
        Component::DispatchLoops,
        Component::Mesh,
    ];
    assert(r@ =~= shutdown_order_spec());
    r
}

impl SplinterDaemon {
    /// Chooses where the admin service keeps its state: the configured storage type, else the
    /// database. A database URL is required in any case.
    pub fn admin_store_choice(&self) -> (r: Result<AdminStoreChoice, StartError>)
        ensures
            match r {
                Ok(AdminStoreChoice::Yaml { circuits_path, proposals_path }) => self.db_url is Some
                    && self.storage_type is Some && self.storage_type.unwrap()@ == "yaml"@
                    && circuits_path@ == join_path_spec(self.state_dir@, "circuits.yaml"@)
                    && proposals_path@ == join_path_spec(
                    self.state_dir@,
                    "circuit_proposals.yaml"@,
                ),
                Ok(AdminStoreChoice::Memory) => self.db_url is Some && self.storage_type is Some
                    && self.storage_type.unwrap()@ == "memory"@,
                Ok(AdminStoreChoice::Database(url)) => self.db_url is Some && url
                    == self.db_url.unwrap() && self.storage_type is None,
                Err(StartError::StorageError(m)) => if self.db_url is None {
                    m@ == "biome was enabled but the builder failed to require the db URL"@
                } else {
                    self.storage_type is Some && self.storage_type.unwrap()@ != "yaml"@
                        && self.storage_type.unwrap()@ != "memory"@ && m@
                        == "storage type is not supported: "@ + self.storage_type.unwrap()@
                },
                Err(_) => false,
            },
    {
        let url = match &self.db_url {
            Some(u) => u.clone(),
            None => {
                return Err(
                    StartError::StorageError(
                        String::from_str(
                            "biome was enabled but the builder failed to require the db URL",
                        ),
                    ),
                )
            },
        };
        match &self.storage_type {
            None => Ok(AdminStoreChoice::Database(url)),
            Some(storage) => {
                if str_eq(storage.as_str(), "yaml") {
                    Ok(
                        AdminStoreChoice::Yaml {
                            circuits_path: join_path(self.state_dir.as_str(), "circuits.yaml"),
                            proposals_path: join_path(
                                self.state_dir.as_str(),
                                "circuit_proposals.yaml",
                            ),
                        },
                    )
                } else if str_eq(storage.as_str(), "memory") {
                    Ok(AdminStoreChoice::Memory)
                } else {
                    Err(
                        StartError::StorageError(
                            String::from_str("storage type is not supported: ").concat(
                                storage.as_str(),
                            ),
                        ),
                    )
                }
            },
        }
    }

    /// How the REST API binds: plain HTTP for an `http://` endpoint, else HTTPS with the
    /// configured certificate and key.
    pub fn rest_api_bind(&self) -> (r: Result<RestApiBind, StartError>)
        ensures
            match r {
                Ok(RestApiBind::Insecure(b)) => crate::text::has_prefix(
                    self.rest_api_endpoint@,
                    "http://"@,
                ) && b@ == self.rest_api_endpoint@.subrange(7, self.rest_api_endpoint@.len() as int),
                Ok(RestApiBind::Secure { bind, cert_path, key_path }) => !crate::text::has_prefix(
                    self.rest_api_endpoint@,
                    "http://"@,
                ) && self.rest_api_ssl_settings == Some((cert_path, key_path)) && bind@ == if crate::text::has_prefix(
                    self.rest_api_endpoint@,
                    "https://"@,
                ) {
                    self.rest_api_endpoint@.subrange(8, self.rest_api_endpoint@.len() as int)
                } else {
                    self.rest_api_endpoint@
                },
                Err(StartError::RestApiError(m)) => !crate::text::has_prefix(
                    self.rest_api_endpoint@,
                    "http://"@,
                ) && self.rest_api_ssl_settings is None && m@
                    == "The REST API has been configured for HTTPS, but no certificate and key was provided."@,
                Err(_) => false,
            },
    {
        proof {
            reveal_strlit("http://");
            reveal_strlit("https://");
        }
        match crate::text::strip_prefix(self.rest_api_endpoint.as_str(), "http://") {
            Some(rest) => Ok(RestApiBind::Insecure(rest.to_owned())),
            None => match &self.rest_api_ssl_settings {
                Some((cert, key)) => {
                    let bind = match crate::text::strip_prefix(
                        self.rest_api_endpoint.as_str(),
                        "https://",
                    ) {
                        Some(rest) => rest.to_owned(),
                        None => self.rest_api_endpoint.clone(),
                    };
                    Ok(RestApiBind::Secure { bind, cert_path: cert.clone(), key_path: key.clone() })
                },
                None => Err(
                    StartError::RestApiError(
                        String::from_str(
                            "The REST API has been configured for HTTPS, but no certificate and key was provided.",
                        ),
                    ),
                ),
            },
        }
    }

    /// The OAuth configuration: none where no OAuth value is set; otherwise provider, client
    /// ID, client secret and redirect URL are all required, and Azure and OpenID also need the
    /// discovery document URL.
    pub fn oauth_settings(&self) -> (r: Result<Option<OAuthSettings>, StartError>)
        ensures
            match r {
                Ok(None) => !(self.oauth_provider is Some || self.oauth_client_id is Some
                    || self.oauth_client_secret is Some || self.oauth_redirect_url is Some),
                Ok(Some(s)) => oauth_problem(*self) is None && match s {
                    OAuthSettings::Azure { client_id, client_secret, redirect_url, openid_url } =>
                        self.oauth_provider.unwrap()@ == "azure"@ && Some(client_id)
                        == self.oauth_client_id && Some(client_secret) == self.oauth_client_secret
                        && Some(redirect_url) == self.oauth_redirect_url && Some(openid_url)
                        == self.oauth_openid_url,
                    OAuthSettings::GitHub { client_id, client_secret, redirect_url } =>
                        self.oauth_provider.unwrap()@ == "github"@ && Some(client_id)
                        == self.oauth_client_id && Some(client_secret) == self.oauth_client_secret
                        && Some(redirect_url) == self.oauth_redirect_url,
                    OAuthSettings::Google { client_id, client_secret, redirect_url } =>
                        self.oauth_provider.unwrap()@ == "google"@ && Some(client_id)
                        == self.oauth_client_id && Some(client_secret) == self.oauth_client_secret
                        && Some(redirect_url) == self.oauth_redirect_url,
                    OAuthSettings::OpenId { client_id, client_secret, redirect_url, openid_url } =>
                        self.oauth_provider.unwrap()@ == "openid"@ && Some(client_id)
                        == self.oauth_client_id && Some(client_secret) == self.oauth_client_secret
                        && Some(redirect_url) == self.oauth_redirect_url && Some(openid_url)
                        == self.oauth_openid_url,
                },
                Err(StartError::RestApiError(m)) => oauth_problem(*self) == Some(m@),
                Err(_) => false,
            },
    {
        if !(self.oauth_provider.is_some() || self.oauth_client_id.is_some()
            || self.oauth_client_secret.is_some() || self.oauth_redirect_url.is_some()) {
            return Ok(None);
        }
        let provider = match &self.oauth_provider {
            Some(p) => p,
            None => {
                return Err(
                    StartError::RestApiError(
                        String::from_str("missing OAuth provider configuration"),
                    ),
                )
            },
        };
        let client_id = match &self.oauth_client_id {
            Some(v) => v.clone(),
            None => {
                return Err(
                    StartError::RestApiError(
                        String::from_str("missing OAuth client ID configuration"),
                    ),
                )
            },
        };
        let client_secret = match &self.oauth_client_secret {
            Some(v) => v.clone(),
            None => {
                return Err(
                    StartError::RestApiError(
                        String::from_str("missing OAuth client secret configuration"),
                    ),
                )
            },
        };
        let redirect_url = match &self.oauth_redirect_url {
            Some(v) => v.clone(),
            None => {
                return Err(
                    StartError::RestApiError(
                        String::from_str("missing OAuth redirect URL configuration"),
                    ),
                )
            },
        };
        let is_azure = str_eq(provider.as_str(), "azure");
        let is_openid = str_eq(provider.as_str(), "openid");
        if is_azure || is_openid {
            let openid_url = match &self.oauth_openid_url {
                Some(v) => v.clone(),
                None => {
                    return Err(
                        StartError::RestApiError(
                            String::from_str(
                                "missing OAuth OpenID discovery document URL configuration",
                            ),
                        ),
                    )
                },
            };
            if is_azure {
                Ok(
                    Some(
                        OAuthSettings::Azure { client_id, client_secret, redirect_url, openid_url },
                    ),
                )
            } else {
                Ok(
                    Some(
                        OAuthSettings::OpenId { client_id, client_secret, redirect_url, openid_url },
                    ),
                )
            }
        } else if str_eq(provider.as_str(), "github") {
            Ok(Some(OAuthSettings::GitHub { client_id, client_secret, redirect_url }))
        } else if str_eq(provider.as_str(), "google") {
            Ok(Some(OAuthSettings::Google { client_id, client_secret, redirect_url }))
        } else {
            Err(
                StartError::RestApiError(
                    String::from_str("invalid OAuth provider: ").concat(provider.as_str()),
                ),
            )
        }
    }
}

/// The services hosted in process, as `(endpoint, identity)` pairs.
pub fn inproc_ids(node_id: &str) -> (r: Vec<(String, String)>)
    ensures
        r@.map_values(|p: (String, String)| (p.0@, p.1@)) == inproc_ids_spec(node_id@),
{
    let mut r: Vec<(String, String)> = Vec::new();
    r.push(
        (
            String::from_str("inproc://orchestator"),
            String::from_str("orchestator::").concat(node_id),
        ),
    );
    r.push(
        (String::from_str("inproc://admin-service"), String::from_str("admin::").concat(node_id)),
    );
    r.push(
        (String::from_str("inproc://health-service"), String::from_str("health::").concat(node_id)),
    );
    assert(r@.map_values(|p: (String, String)| (p.0@, p.1@)) =~= inproc_ids_spec(node_id@));
    r
}

/// Where a read-only registry comes from.
pub enum RegistrySource {
    /// A local YAML file.
    File(String),
    /// A remote YAML file, refreshed automatically and forcibly at the given intervals in
    /// seconds, where those are set.
    Remote { url: String, auto_refresh: Option<u64>, forced_refresh: Option<u64> },
    /// A URI whose scheme is not supported.
    Invalid(String),
    /// An argument that is not a URI.
    Unparsable(String),
}

/// Classifies a registry argument by its URI scheme: `file` is a local file, `http` and
/// `https` a remote one; a refresh interval of 0 means no refresh.
pub fn registry_source(registry: &str, auto_refresh: u64, forced_refresh: u64) -> (r: RegistrySource)
    ensures
        match r {
            RegistrySource::Unparsable(s) => s@ == registry@ && crate::text::first_scheme_separator(
                registry@,
            ) is None,
            RegistrySource::File(path) => crate::text::first_scheme_separator(registry@) is Some
                && {
                let i = crate::text::first_scheme_separator(registry@).unwrap();
                registry@.subrange(0, i) == "file"@ && path@ == registry@.subrange(
                    i + 3,
                    registry@.len() as int,
                )
            },
            RegistrySource::Remote { url, auto_refresh: a, forced_refresh: f } =>
                crate::text::first_scheme_separator(registry@) is Some && {
                let i = crate::text::first_scheme_separator(registry@).unwrap();
                (registry@.subrange(0, i) == "http"@ || registry@.subrange(0, i) == "https"@)
                    && url@ == registry@ && a == (if auto_refresh != 0 {
                    Some(auto_refresh)
                } else {
                    None
                }) && f == (if forced_refresh != 0 {
                    Some(forced_refresh)
                } else {
                    None
                })
            },
            RegistrySource::Invalid(s) => s@ == registry@ && crate::text::first_scheme_separator(
                registry@,
            ) is Some && {
                let i = crate::text::first_scheme_separator(registry@).unwrap();
                registry@.subrange(0, i) != "file"@ && registry@.subrange(0, i) != "http"@
                    && registry@.subrange(0, i) != "https"@
            },
        },
{
    match crate::text::parse_registry_arg(registry) {
        Err(_) => RegistrySource::Unparsable(registry.to_owned()),
        Ok((scheme, path)) => {
            if str_eq(scheme, "file") {
                RegistrySource::File(path.to_owned())
            } else if str_eq(scheme, "http") || str_eq(scheme, "https") {
                RegistrySource::Remote {
                    url: registry.to_owned(),
                    auto_refresh: if auto_refresh != 0 {
                        Some(auto_refresh)
                    } else {
                        None
                    },
                    forced_refresh: if forced_refresh != 0 {
                        Some(forced_refresh)
                    } else {
                        None
                    },
                }
            } else {
                RegistrySource::Invalid(registry.to_owned())
            }
        },
    }
}

} // verus!
