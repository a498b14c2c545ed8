//! Database connection types: the supported engines, connection status,
//! configuration and credentials, and the connection error taxonomy.
//!
//! Connection ids and timestamps are plain values here (opaque id strings,
//! milliseconds); the embedding runtime supplies them.

use vstd::prelude::*;

verus! {

/// The database engines the drivers know about.
#[derive(Debug, Clone, Copy, PartialEq, Eq, Structural)]
pub enum DatabaseType {
    PostgreSQL,
    MySQL,
    SQLite,
    SqlServer,
    Oracle,
}

impl DatabaseType {
    /// The engine's display name.
    pub fn display_name(&self) -> (r: String)
        ensures
            r@ == match self {
                DatabaseType::PostgreSQL => "PostgreSQL"@,
                DatabaseType::MySQL => "MySQL"@,
                DatabaseType::SQLite => "SQLite"@,
                DatabaseType::SqlServer => "SQL Server"@,
                DatabaseType::Oracle => "Oracle"@,
            },
    {
        match self {
            DatabaseType::PostgreSQL => String::from_str("PostgreSQL"),
            DatabaseType::MySQL => String::from_str("MySQL"),
            DatabaseType::SQLite => String::from_str("SQLite"),
            DatabaseType::SqlServer => String::from_str("SQL Server"),
            DatabaseType::Oracle => String::from_str("Oracle"),
        }
    }
}

/// Where a connection stands.
#[derive(Debug, Clone, PartialEq)]
pub enum ConnectionStatus {
    Disconnected,
    Connecting,
    Connected,
    Error(String),
    Testing,
}

/// Mathematical model of a connection configuration.
pub ghost struct ConnectionConfigModel {
    pub id: Seq<char>,
    pub name: Seq<char>,
    pub database_type: DatabaseType,
    pub host: Seq<char>,
    pub port: u16,
    pub database: Seq<char>,
    pub username: Seq<char>,
    pub ssl_enabled: bool,
    pub connection_timeout: u32,
    pub max_connections: u32,
    pub created_at_ms: u64,
    pub updated_at_ms: u64,
    pub additional_params: Seq<(Seq<char>, Seq<char>)>,
}

/// A connection's configuration: the non-sensitive half of a connection.
#[derive(Debug, Clone)]
pub struct ConnectionConfig {
    /// Opaque connection id.
    pub id: String,
    /// Display name.
    pub name: String,
    /// Which engine this connects to.
    pub database_type: DatabaseType,
    /// Host name or address.
    pub host: String,
    /// TCP port.
    pub port: u16,
    /// Database name, or the file path for file-backed engines.
    pub database: String,
    /// User name.
    pub username: String,
    /// Whether transport encryption is required.
    pub ssl_enabled: bool,
    /// Connect timeout in seconds.
    pub connection_timeout: u32,
    /// Pool ceiling.
    pub max_connections: u32,
    /// Creation time, in milliseconds.
    pub created_at_ms: u64,
    /// Last update time, in milliseconds.
    pub updated_at_ms: u64,
    /// Extra driver parameters.
    pub additional_params: Vec<(String, String)>,
}

impl View for ConnectionConfig {
    type V = ConnectionConfigModel;

    open spec fn view(&self) -> ConnectionConfigModel {
        ConnectionConfigModel {
            id: self.id@,
            name: self.name@,
            database_type: self.database_type,
            host: self.host@,
            port: self.port,
            database: self.database@,
            username: self.username@,
            ssl_enabled: self.ssl_enabled,
            connection_timeout: self.connection_timeout,
            max_connections: self.max_connections,
            created_at_ms: self.created_at_ms,
            updated_at_ms: self.updated_at_ms,
            additional_params: Seq::new(
                self.additional_params@.len(),
                |i: int| (self.additional_params@[i].0@, self.additional_params@[i].1@),
            ),
        }
    }
}

impl ConnectionConfig {
    /// A fresh configuration around the given essentials: encryption on,
    /// thirty-second connect timeout, pool of ten.  The id and the clock
    /// reading come from the caller.
    pub fn new(
        id: String,
        name: String,
        database_type: DatabaseType,
        host: String,
        port: u16,
        database: String,
        username: String,
        now_ms: u64,
    ) -> (r: Self)
        ensures
            r@ == (ConnectionConfigModel {
                id: id@,
                name: name@,
                database_type: database_type,
                host: host@,
                port: port,
                database: database@,
                username: username@,
                ssl_enabled: true,
                connection_timeout: 30,
                max_connections: 10,
                created_at_ms: now_ms,
                updated_at_ms: now_ms,
                additional_params: Seq::empty(),
            }),
    {
        let r = ConnectionConfig {
            id,
            name,
            database_type,
            host,
            port,
            database,
            username,
            ssl_enabled: true,
            connection_timeout: 30,
            max_connections: 10,
            created_at_ms: now_ms,
            updated_at_ms: now_ms,
            additional_params: Vec::new(),
        };
        proof {
            assert(r@.additional_params =~= Seq::<(Seq<char>, Seq<char>)>::empty());
        }
        r
    }

    /// Check the essentials of a connection configuration: the name, host
    /// and username must not be blank, the port must be set, and the
    /// timeout and pool ceiling must lie in their ranges.  Returns `Ok`
    /// exactly when every rule holds; the message names the first rule
    /// broken, in this order.
    pub fn validate(&self) -> (r: Result<(), ConnectionError>)
        ensures
            r is Ok <==> {
                &&& !crate::drivers::blank(self@.name)
                &&& !crate::drivers::blank(self@.host)
                &&& !crate::drivers::blank(self@.username)
                &&& self@.port != 0
                &&& 0 < self@.connection_timeout <= 300
                &&& 0 < self@.max_connections <= 100
            },
            r is Err ==> r->Err_0 is ConfigurationError,
    {
        if field_blank(self.name.as_str()) {
            return Err(
                ConnectionError::ConfigurationError(
                    String::from_str("Connection name cannot be empty"),
                ),
            );
        }
        if field_blank(self.host.as_str()) {
            return Err(
                ConnectionError::ConfigurationError(String::from_str("Host cannot be empty")),
            );
        }
        if field_blank(self.username.as_str()) {
            return Err(
                ConnectionError::ConfigurationError(String::from_str("Username cannot be empty")),
            );
        }
        if self.port == 0 {
            return Err(
                ConnectionError::ConfigurationError(String::from_str("Invalid port number")),
            );
        }
        if self.connection_timeout == 0 || self.connection_timeout > 300 {
            return Err(
                ConnectionError::ConfigurationError(
                    String::from_str("Connection timeout must be between 1 and 300 seconds"),
                ),
            );
        }
        if self.max_connections == 0 || self.max_connections > 100 {
            return Err(
                ConnectionError::ConfigurationError(
                    String::from_str("Max connections must be between 1 and 100"),
                ),
            );
        }
        Ok(())
    }

    /// The keychain service name for this connection.
    pub fn keychain_service(&self) -> (r: String)
        ensures
            r@ == "symbiotic-db-"@ + self@.id,
    {
        let mut s = String::from_str("symbiotic-db-");
        s.append(self.id.as_str());
        s
    }

    /// The keychain account name for this connection.
    pub fn keychain_account(&self) -> (r: String)
        ensures
            r@ == self@.username + "@"@ + self@.host,
    {
        let mut s = self.username.clone();
        s.append("@");
        s.append(self.host.as_str());
        s
    }
}

/// Whether a string is empty or all whitespace.
fn field_blank(s: &str) -> (r: bool)
    ensures
        r == crate::drivers::blank(s@),
{
    let n = s.unicode_len();
    let mut i: usize = 0;
    while i < n
        invariant
            n == s@.len(),
            i <= n,
            forall|j: int| 0 <= j < i ==> crate::codec::is_ws(#[trigger] s@[j]),
        decreases n - i,
    {
        let c = s.get_char(i);
        if !(c == ' ' || c == '\t' || c == '\r' || c == '\n') {
            return false;
        }
        i = i + 1;
    }
    true
}

/// Builds a connection configuration step by step, starting from an
/// engine's defaults: localhost, the engine's default port, encryption on.
/// The id is drawn fresh; the timestamps come from the wall clock.
#[derive(Debug)]
pub struct ConnectionBuilder {
    config: ConnectionConfig,
}

impl View for ConnectionBuilder {
    type V = ConnectionConfigModel;

    closed spec fn view(&self) -> ConnectionConfigModel {
        self.config@
    }
}

impl ConnectionBuilder {
    /// Start from a name and an engine.
    pub fn new(name: String, database_type: DatabaseType) -> (r: Self)
        ensures
            r@.name == name@,
            r@.database_type == database_type,
            r@.host == "localhost"@,
            r@.port == crate::drivers::default_port_of(database_type),
            r@.database.len() == 0,
            r@.username.len() == 0,
            r@.ssl_enabled,
            r@.connection_timeout == 30,
            r@.max_connections == 10,
            r@.additional_params.len() == 0,
            r@.id.len() == 36,
    {
        let id = crate::analysis::new_task_id();
        let now = crate::clock::now_millis();
        let port = crate::drivers::DatabaseDriverFactory::get_default_port(&database_type);
        let config = ConnectionConfig::new(
            id,
            name,
            database_type,
            String::from_str("localhost"),
            port,
            String::new(),
            String::new(),
            now,
        );
        ConnectionBuilder { config }
    }

    /// Set the host.
    pub fn host(self, host: String) -> (r: Self)
        ensures
            r@ == (ConnectionConfigModel { host: host@, ..self@ }),
    {
        ConnectionBuilder { config: ConnectionConfig { host, ..self.config } }
    }

    /// Set the port.
    pub fn port(self, port: u16) -> (r: Self)
        ensures
            r@ == (ConnectionConfigModel { port, ..self@ }),
    {
        ConnectionBuilder { config: ConnectionConfig { port, ..self.config } }
    }

    /// Set the database name or file path.
    pub fn database(self, database: String) -> (r: Self)
        ensures
            r@ == (ConnectionConfigModel { database: database@, ..self@ }),
    {
        ConnectionBuilder { config: ConnectionConfig { database, ..self.config } }
    }

    /// Set the user name.
    pub fn username(self, username: String) -> (r: Self)
        ensures
            r@ == (ConnectionConfigModel { username: username@, ..self@ }),
    {
        ConnectionBuilder { config: ConnectionConfig { username, ..self.config } }
    }

    /// Switch transport encryption on or off.
    pub fn ssl_enabled(self, ssl_enabled: bool) -> (r: Self)
        ensures
            r@ == (ConnectionConfigModel { ssl_enabled, ..self@ }),
    {
        ConnectionBuilder { config: ConnectionConfig { ssl_enabled, ..self.config } }
    }

    /// Set the connect timeout, in seconds.
    pub fn connection_timeout(self, connection_timeout: u32) -> (r: Self)
        ensures
            r@ == (ConnectionConfigModel { connection_timeout, ..self@ }),
    {
        ConnectionBuilder { config: ConnectionConfig { connection_timeout, ..self.config } }
    }

    /// Set the pool ceiling.
    pub fn max_connections(self, max_connections: u32) -> (r: Self)
        ensures
            r@ == (ConnectionConfigModel { max_connections, ..self@ }),
    {
        ConnectionBuilder { config: ConnectionConfig { max_connections, ..self.config } }
    }

    /// Append one extra driver parameter.
    pub fn additional_param(self, key: String, value: String) -> (r: Self)
        ensures
            r@ == (ConnectionConfigModel {
                additional_params: self@.additional_params.push((key@, value@)),
                ..self@
            }),
    {
        let mut params = self.config.additional_params;
        params.push((key, value));
        let r = ConnectionBuilder {
            config: ConnectionConfig { additional_params: params, ..self.config },
        };
        proof {
            assert(r@.additional_params =~= self@.additional_params.push((key@, value@)));
            assert(r@ == (ConnectionConfigModel {
                additional_params: self@.additional_params.push((key@, value@)),
                ..self@
            }));
        }
        r
    }

    /// Finish: the built configuration.
    pub fn build_config(self) -> (r: ConnectionConfig)
        ensures
            r@ == self@,
    {
        self.config
    }
}

/// A connection's credentials: the sensitive half.
#[derive(Debug, Clone)]
pub struct DatabaseCredentials {
    /// The connection these credentials belong to.
    pub connection_id: String,
    /// The password.
    pub password: String,
    /// Optional client certificate path.
    pub certificate_path: Option<String>,
    /// Optional private key path.
    pub private_key_path: Option<String>,
}

impl DatabaseCredentials {
    /// Credentials of a bare password.
    pub fn new(connection_id: String, password: String) -> (r: Self)
        ensures
            r.connection_id@ == connection_id@,
            r.password@ == password@,
            r.certificate_path is None,
            r.private_key_path is None,
    {
        DatabaseCredentials { connection_id, password, certificate_path: None, private_key_path: None }
    }
}

/// The guard applied before credentials are persisted for a connection:
/// the credentials must name the configuration they belong to.  Returns
/// `Ok` exactly when the ids agree.
pub fn check_credentials_match(
    config: &ConnectionConfig,
    credentials: &DatabaseCredentials,
) -> (r: Result<(), ConnectionError>)
    ensures
        r is Ok <==> config@.id == credentials.connection_id@,
        match r {
            Ok(()) => true,
            Err(e) => e matches ConnectionError::ConfigurationError(m) && m@
                == "Connection ID mismatch between config and credentials"@,
        },
{
    if config.id.eq(&credentials.connection_id) {
        Ok(())
    } else {
        Err(
            ConnectionError::ConfigurationError(
                String::from_str("Connection ID mismatch between config and credentials"),
            ),
        )
    }
}

/// Everything a connection operation can fail with.
#[derive(Debug, Clone)]
pub enum ConnectionError {
    ConnectionFailed(String),
    AuthenticationFailed(String),
    DatabaseNotFound(String),
    NetworkError(String),
    SslError(String),
    TimeoutError(String),
    ConfigurationError(String),
    CredentialError(String),
    SecurityViolation(String),
    UnsupportedDatabaseType(String),
    InternalError(String),
}

impl ConnectionError {
    /// The descriptive text of this error.
    pub open spec fn message_spec(self) -> Seq<char> {
        match self {
            ConnectionError::ConnectionFailed(s) => "Database connection failed: "@ + s@,
            ConnectionError::AuthenticationFailed(s) => "Authentication failed: "@ + s@,
            ConnectionError::DatabaseNotFound(s) => "Database not found: "@ + s@,
            ConnectionError::NetworkError(s) => "Network error: "@ + s@,
            ConnectionError::SslError(s) => "SSL/TLS error: "@ + s@,
            ConnectionError::TimeoutError(s) => "Timeout error: "@ + s@,
            ConnectionError::ConfigurationError(s) => "Configuration error: "@ + s@,
            ConnectionError::CredentialError(s) => "Credential error: "@ + s@,
            ConnectionError::SecurityViolation(s) => "Security violation: "@ + s@,
            ConnectionError::UnsupportedDatabaseType(s) => "Unsupported database type: "@ + s@,
            ConnectionError::InternalError(s) => "Internal error: "@ + s@,
        }
    }

    /// Render the descriptive text of this error.
    pub fn message(&self) -> (r: String)
        ensures
            r@ == self.message_spec(),
    {
        let (prefix, detail): (&str, &String) = match self {
            ConnectionError::ConnectionFailed(s) => ("Database connection failed: ", s),
            ConnectionError::AuthenticationFailed(s) => ("Authentication failed: ", s),
            ConnectionError::DatabaseNotFound(s) => ("Database not found: ", s),
            ConnectionError::NetworkError(s) => ("Network error: ", s),
            ConnectionError::SslError(s) => ("SSL/TLS error: ", s),
            ConnectionError::TimeoutError(s) => ("Timeout error: ", s),
            ConnectionError::ConfigurationError(s) => ("Configuration error: ", s),
            ConnectionError::CredentialError(s) => ("Credential error: ", s),
            ConnectionError::SecurityViolation(s) => ("Security violation: ", s),
            ConnectionError::UnsupportedDatabaseType(s) => ("Unsupported database type: ", s),
            ConnectionError::InternalError(s) => ("Internal error: ", s),
        };
        let mut m = String::from_str(prefix);
        m.append(detail.as_str());
        m
    }
}

/// Tunables of a connection manager.
#[derive(Debug, Clone)]
pub struct ConnectionManagerConfig {
    /// Ceiling on simultaneously managed connections.
    pub max_connections: usize,
    /// Connect timeout in seconds.
    pub connection_timeout_seconds: u32,
    /// How long an idle connection is kept, in seconds.
    pub idle_timeout_seconds: u32,
    /// Whether idle connections are cleaned up automatically.
    pub auto_cleanup_enabled: bool,
    /// Period of the automatic cleanup, in seconds.
    pub auto_cleanup_interval_seconds: u32,
}

impl Default for ConnectionManagerConfig {
    /// The stock tunables: fifty connections, thirty-second connects,
    /// five-minute idle timeout, cleanup every minute.
    fn default() -> (r: Self)
        ensures
            r.max_connections == 50,
            r.connection_timeout_seconds == 30,
            r.idle_timeout_seconds == 300,
            r.auto_cleanup_enabled,
            r.auto_cleanup_interval_seconds == 60,
    {
        ConnectionManagerConfig {
            max_connections: 50,
            connection_timeout_seconds: 30,
            idle_timeout_seconds: 300,
            auto_cleanup_enabled: true,
            auto_cleanup_interval_seconds: 60,
        }
    }
}

/// A snapshot of a connection manager's counters.
#[derive(Debug, Clone, PartialEq, Eq, Structural)]
pub struct ConnectionManagerStats {
    pub total_connections: usize,
    pub active_connections: usize,
    pub max_connections: usize,
    pub total_queries: u64,
    pub successful_queries: u64,
    pub failed_queries: u64,
}

} // verus!
