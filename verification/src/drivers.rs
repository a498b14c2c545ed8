//! Database drivers: connection-string building and engine-specific
//! validation for PostgreSQL, MySQL and SQLite.
//!
//! Every value interpolated into a connection string is percent-encoded,
//! and parameter names and values are vetted first, so crafted input cannot
//! smuggle extra options into the string.  Opening real connections is the
//! embedding runtime's part.

use vstd::prelude::*;
use vstd::string::StringSliceAdditionalSpecFns;

use crate::dbtypes::{ConnectionConfig, ConnectionConfigModel, ConnectionError, DatabaseCredentials, DatabaseType};
use crate::ids;

verus! {

/// A byte that percent-encoding leaves as itself: ASCII alphanumerics and
/// `-`, `.`, `_`, `~`.
pub open spec fn pe_unreserved(b: u8) -> bool {
    ||| (48 <= b && b <= 57)
    ||| (65 <= b && b <= 90)
    ||| (97 <= b && b <= 122)
    ||| b == 45
    ||| b == 46
    ||| b == 95
    ||| b == 126
}

/// The uppercase hex digit for `d` (`d < 16`).
pub open spec fn hex_upper(d: u8) -> char {
    if d == 0 {
        '0'
    } else if d == 1 {
        '1'
    } else if d == 2 {
        '2'
    } else if d == 3 {
        '3'
    } else if d == 4 {
        '4'
    } else if d == 5 {
        '5'
    } else if d == 6 {
        '6'
    } else if d == 7 {
        '7'
    } else if d == 8 {
        '8'
    } else if d == 9 {
        '9'
    } else if d == 10 {
        'A'
    } else if d == 11 {
        'B'
    } else if d == 12 {
        'C'
    } else if d == 13 {
        'D'
    } else if d == 14 {
        'E'
    } else {
        'F'
    }
}

/// One byte percent-encoded.
pub open spec fn pe_byte(b: u8) -> Seq<char> {
    if pe_unreserved(b) {
        seq![b as char]
    } else {
        seq!['%', hex_upper(b / 16), hex_upper(b % 16)]
    }
}

/// A byte sequence percent-encoded.
pub open spec fn percent_encoded(bs: Seq<u8>) -> Seq<char>
    decreases bs.len(),
{
    if bs.len() == 0 {
        Seq::empty()
    } else {
        percent_encoded(bs.drop_last()) + pe_byte(bs.last())
    }
}

/// A string percent-encoded: its UTF-8 bytes, byte by byte.
pub open spec fn pe_str(s: Seq<char>) -> Seq<char> {
    percent_encoded(vstd::utf8::encode_utf8(s))
}

/// Relies on urlencoding::encode: every byte except ASCII alphanumerics
/// and `-`, `.`, `_`, `~` becomes `%` and two uppercase hex digits.
#[verifier::external_body]
fn url_encode(s: &str) -> (r: String)
    ensures
        r@ == percent_encoded(s.spec_bytes()),
{
    urlencoding::encode(s).into_owned()
}

/// Whether a character counts as alphanumeric, by Unicode's word.  Relied
/// on below through [`char_is_alphanumeric`].
pub uninterp spec fn unicode_alnum(c: char) -> bool;

/// Relies on char::is_alphanumeric of std: the answer depends on the
/// character alone.
#[verifier::external_body]
fn char_is_alphanumeric(c: char) -> (r: bool)
    ensures
        r == unicode_alnum(c),
{
    c.is_alphanumeric()
}

/// A safe extra-parameter name: alphanumerics, underscores and hyphens
/// only, nonempty, at most 64 characters.
pub open spec fn safe_param_name(k: Seq<char>) -> bool {
    &&& k.len() > 0
    &&& k.len() <= 64
    &&& forall|i: int|
        0 <= i < k.len() ==> (unicode_alnum(#[trigger] k[i]) || k[i] == '_' || k[i] == '-')
}

/// A safe extra-parameter value: no `;`, quotes or null bytes, at most
/// 256 characters.
pub open spec fn safe_param_value(v: Seq<char>) -> bool {
    &&& !crate::config::has_char(v, ';')
    &&& !crate::config::has_char(v, '\u{27}')
    &&& !crate::config::has_char(v, '"')
    &&& !crate::config::has_char(v, '\u{0}')
    &&& v.len() <= 256
}

/// Every extra parameter of a configuration is safe.
pub open spec fn params_safe(ps: Seq<(Seq<char>, Seq<char>)>) -> bool {
    forall|i: int|
        0 <= i < ps.len() ==> safe_param_name((#[trigger] ps[i]).0) && safe_param_value(ps[i].1)
}

/// The `&k=v` clauses for the extra parameters, percent-encoded, in order.
pub open spec fn amp_params(ps: Seq<(Seq<char>, Seq<char>)>) -> Seq<char>
    decreases ps.len(),
{
    if ps.len() == 0 {
        Seq::empty()
    } else {
        amp_params(ps.drop_last()) + "&"@ + pe_str(ps.last().0) + "="@ + pe_str(ps.last().1)
    }
}

/// A host free of characters that could smuggle options in.
pub open spec fn host_safe(h: Seq<char>) -> bool {
    &&& !crate::config::has_char(h, ';')
    &&& !crate::config::has_char(h, '\u{27}')
    &&& !crate::config::has_char(h, '"')
}

/// A string that is all whitespace (or empty): not a database name.
pub open spec fn blank(s: Seq<char>) -> bool {
    forall|i: int| 0 <= i < s.len() ==> crate::codec::is_ws(#[trigger] s[i])
}

/// The features an engine supports.
#[derive(Debug, Clone, Copy, PartialEq, Eq, Structural)]
pub enum DatabaseFeature {
    SSL,
    WindowsAuthentication,
    ConnectionPooling,
    Transactions,
    PreparedStatements,
    BulkInsert,
    StoredProcedures,
    Views,
    Triggers,
    FullTextSearch,
}

/// Scan a string for one character.
fn has_char_exec(s: &str, c: char) -> (r: bool)
    ensures
        r == crate::config::has_char(s@, c),
{
    let n = s.unicode_len();
    let mut i: usize = 0;
    while i < n
        invariant
            n == s@.len(),
            i <= n,
            forall|j: int| 0 <= j < i ==> s@[j] != c,
        decreases n - i,
    {
        if s.get_char(i) == c {
            return true;
        }
        i = i + 1;
    }
    false
}

/// Check a host for dangerous characters.
fn check_host(h: &str) -> (r: bool)
    ensures
        r == host_safe(h@),
{
    !(has_char_exec(h, ';') || has_char_exec(h, '\'') || has_char_exec(h, '"'))
}

/// Check one extra-parameter name.
fn check_param_name(k: &str) -> (r: bool)
    ensures
        r == safe_param_name(k@),
{
    let n = k.unicode_len();
    if n == 0 || n > 64 {
        return false;
    }
    let mut i: usize = 0;
    while i < n
        invariant
            n == k@.len(),
            i <= n,
            forall|j: int|
                0 <= j < i ==> (unicode_alnum(#[trigger] k@[j]) || k@[j] == '_' || k@[j] == '-'),
        decreases n - i,
    {
        let c = k.get_char(i);
        if !(char_is_alphanumeric(c) || c == '_' || c == '-') {
            return false;
        }
        i = i + 1;
    }
    true
}

/// Check one extra-parameter value.
fn check_param_value(v: &str) -> (r: bool)
    ensures
        r == safe_param_value(v@),
{
    if v.unicode_len() > 256 {
        return false;
    }
    !(has_char_exec(v, ';') || has_char_exec(v, '\'') || has_char_exec(v, '"') || has_char_exec(
        v,
        '\0',
    ))
}

/// Append the `&k=v` clauses for the extra parameters, vetting each.
/// Returns false, leaving the string half-built, when a parameter is
/// unsafe; the caller discards the string then.
fn append_amp_params(out: &mut String, params: &Vec<(String, String)>) -> (r: bool)
    ensures
        r == params_safe(
            Seq::new(params@.len(), |i: int| (params@[i].0@, params@[i].1@)),
        ),
        r ==> final(out)@ == old(out)@ + amp_params(
            Seq::new(params@.len(), |i: int| (params@[i].0@, params@[i].1@)),
        ),
{
    let ghost all: Seq<(Seq<char>, Seq<char>)> = Seq::new(
        params@.len(),
        |i: int| (params@[i].0@, params@[i].1@),
    );
    let n = params.len();
    let mut i: usize = 0;
    while i < n
        invariant
            n == params@.len(),
            i <= n,
            all == Seq::new(params@.len(), |j: int| (params@[j].0@, params@[j].1@)),
            out@ == old(out)@ + amp_params(all.subrange(0, i as int)),
            forall|j: int|
                0 <= j < i ==> safe_param_name((#[trigger] all[j]).0) && safe_param_value(
                    all[j].1,
                ),
        decreases n - i,
    {
        let ghost pre = all.subrange(0, i as int);
        let ghost cur = all.subrange(0, i as int + 1);
        proof {
            assert(cur.drop_last() =~= pre);
            assert(cur.last() == all[i as int]);
        }
        let key = &params[i].0;
        let value = &params[i].1;
        proof {
            assert(all[i as int].0 == key@ && all[i as int].1 == value@);
        }
        if !(check_param_name(key.as_str()) && check_param_value(value.as_str())) {
            return false;
        }
        out.append("&");
        let ek = url_encode(key.as_str());
        out.append(ek.as_str());
        out.append("=");
        let ev = url_encode(value.as_str());
        out.append(ev.as_str());
        i = i + 1;
    }
    proof {
        assert(all.subrange(0, n as int) =~= all);
    }
    true
}

/// The PostgreSQL connection string of a configuration and a password.
pub open spec fn pg_connection_string(c: ConnectionConfigModel, pw: Seq<char>) -> Seq<char> {
    "postgresql://"@ + pe_str(c.username) + ":"@ + pe_str(pw) + "@"@ + pe_str(c.host) + ":"@
        + ids::dec_str(c.port as int) + "/"@ + pe_str(c.database) + "?sslmode="@ + (if c.ssl_enabled {
        "require"@
    } else {
        "disable"@
    }) + amp_params(c.additional_params)
}

/// The MySQL connection string of a configuration and a password.
pub open spec fn mysql_connection_string(c: ConnectionConfigModel, pw: Seq<char>) -> Seq<char> {
    "mysql://"@ + pe_str(c.username) + ":"@ + pe_str(pw) + "@"@ + pe_str(c.host) + ":"@
        + ids::dec_str(c.port as int) + "/"@ + pe_str(c.database) + "?ssl-mode="@ + (if c.ssl_enabled {
        "REQUIRED"@
    } else {
        "DISABLED"@
    }) + amp_params(c.additional_params)
}

/// The `?`/`&`-separated clauses of a SQLite connection string: the first
/// parameter opens the query string, the rest extend it.
pub open spec fn q_params(ps: Seq<(Seq<char>, Seq<char>)>) -> Seq<char>
    decreases ps.len(),
{
    if ps.len() == 0 {
        Seq::empty()
    } else {
        q_params(ps.drop_last()) + (if ps.len() == 1 {
            "?"@
        } else {
            "&"@
        }) + pe_str(ps.last().0) + "="@ + pe_str(ps.last().1)
    }
}

/// The SQLite connection string of a configuration.
pub open spec fn sqlite_connection_string(c: ConnectionConfigModel) -> Seq<char> {
    "sqlite:"@ + pe_str(c.database) + q_params(c.additional_params)
}

/// A character sequence holds two slashes in a row.
pub open spec fn has_doubleslash(p: Seq<char>) -> bool {
    exists|i: int| 0 <= i && i + 1 < p.len() && #[trigger] p[i] == '/' && p[i + 1] == '/'
}

/// A SQLite database path holds content that is refused outright:
/// traversal patterns, double slashes or null bytes.
pub open spec fn sqlite_path_dangerous(p: Seq<char>) -> bool {
    ||| crate::config::has_dotdot(p)
    ||| has_doubleslash(p)
    ||| crate::config::has_char(p, '\u{0}')
}

/// A SQLite database path free of dangerous content, of sensible length.
pub open spec fn sqlite_path_ok(p: Seq<char>) -> bool {
    &&& !sqlite_path_dangerous(p)
    &&& 0 < p.len() <= 4096
}

/// The PostgreSQL driver.
#[derive(Debug, Default)]
pub struct PostgreSQLDriver;

impl PostgreSQLDriver {
    /// Vet the host and port.
    pub fn validate_connection_parameters(&self, config: &ConnectionConfig) -> (r: Result<
        (),
        ConnectionError,
    >)
        ensures
            r is Ok <==> (host_safe(config@.host) && config@.port != 0),
            r is Err ==> (if !host_safe(config@.host) {
                r->Err_0 is SecurityViolation
            } else {
                r->Err_0 is ConfigurationError
            }),
    {
        if !check_host(config.host.as_str()) {
            return Err(
                ConnectionError::SecurityViolation(
                    String::from_str("Host contains potentially dangerous characters"),
                ),
            );
        }
        if config.port == 0 {
            return Err(
                ConnectionError::ConfigurationError(String::from_str("Invalid port number")),
            );
        }
        Ok(())
    }

    /// Build the connection string, percent-encoding every interpolated
    /// value.  Succeeds exactly when the host, port and every extra
    /// parameter pass vetting, and then returns exactly
    /// [`pg_connection_string`].
    pub fn build_connection_string(
        &self,
        config: &ConnectionConfig,
        credentials: &DatabaseCredentials,
    ) -> (r: Result<String, ConnectionError>)
        ensures
            r is Ok <==> (host_safe(config@.host) && config@.port != 0 && params_safe(
                config@.additional_params,
            )),
            match r {
                Ok(s) => s@ == pg_connection_string(config@, credentials.password@),
                Err(e) => (if host_safe(config@.host) && config@.port == 0 {
                    e is ConfigurationError
                } else {
                    e is SecurityViolation
                }),
            },
    {
        match self.validate_connection_parameters(config) {
            Ok(()) => {},
            Err(e) => {
                return Err(e);
            },
        }
        let mut out = String::from_str("postgresql://");
        let eu = url_encode(config.username.as_str());
        out.append(eu.as_str());
        out.append(":");
        let ep = url_encode(credentials.password.as_str());
        out.append(ep.as_str());
        out.append("@");
        let eh = url_encode(config.host.as_str());
        out.append(eh.as_str());
        out.append(":");
        let port_str = ids::render_id(config.port as u64);
        out.append(port_str.as_str());
        out.append("/");
        let ed = url_encode(config.database.as_str());
        out.append(ed.as_str());
        out.append("?sslmode=");
        if config.ssl_enabled {
            out.append("require");
        } else {
            out.append("disable");
        }
        if !append_amp_params(&mut out, &config.additional_params) {
            return Err(
                ConnectionError::SecurityViolation(
                    String::from_str("Unsafe connection parameter"),
                ),
            );
        }
        proof {
            assert(out@ =~= pg_connection_string(config@, credentials.password@));
        }
        Ok(out)
    }

    /// The engine's default port.
    pub fn default_port(&self) -> (r: u16)
        ensures
            r == 5432,
    {
        5432
    }

    /// What the engine supports.
    pub fn supported_features(&self) -> (r: Vec<DatabaseFeature>)
        ensures
            r@ == seq![
                DatabaseFeature::SSL,
                DatabaseFeature::ConnectionPooling,
                DatabaseFeature::Transactions,
                DatabaseFeature::PreparedStatements,
                DatabaseFeature::BulkInsert,
                DatabaseFeature::StoredProcedures,
                DatabaseFeature::Views,
                DatabaseFeature::Triggers,
                DatabaseFeature::FullTextSearch,
            ],
    {
        let mut v: Vec<DatabaseFeature> = Vec::new();
        v.push(DatabaseFeature::SSL);
        v.push(DatabaseFeature::ConnectionPooling);
        v.push(DatabaseFeature::Transactions);
        v.push(DatabaseFeature::PreparedStatements);
        v.push(DatabaseFeature::BulkInsert);
        v.push(DatabaseFeature::StoredProcedures);
        v.push(DatabaseFeature::Views);
        v.push(DatabaseFeature::Triggers);
        v.push(DatabaseFeature::FullTextSearch);
        proof {
            assert(v@ =~= seq![
                DatabaseFeature::SSL,
                DatabaseFeature::ConnectionPooling,
                DatabaseFeature::Transactions,
                DatabaseFeature::PreparedStatements,
                DatabaseFeature::BulkInsert,
                DatabaseFeature::StoredProcedures,
                DatabaseFeature::Views,
                DatabaseFeature::Triggers,
                DatabaseFeature::FullTextSearch,
            ]);
        }
        v
    }

    /// The engine needs a database name.
    pub fn validate_config(&self, config: &ConnectionConfig) -> (r: Result<(), ConnectionError>)
        ensures
            r is Ok <==> !blank(config@.database),
    {
        if is_blank(config.database.as_str()) {
            return Err(
                ConnectionError::ConfigurationError(
                    String::from_str("Database name is required for PostgreSQL"),
                ),
            );
        }
        Ok(())
    }
}

/// The MySQL driver.
#[derive(Debug, Default)]
pub struct MySQLDriver;

impl MySQLDriver {
    /// Vet the host and port.
    pub fn validate_connection_parameters(&self, config: &ConnectionConfig) -> (r: Result<
        (),
        ConnectionError,
    >)
        ensures
            r is Ok <==> (host_safe(config@.host) && config@.port != 0),
            r is Err ==> (if !host_safe(config@.host) {
                r->Err_0 is SecurityViolation
            } else {
                r->Err_0 is ConfigurationError
            }),
    {
        if !check_host(config.host.as_str()) {
            return Err(
                ConnectionError::SecurityViolation(
                    String::from_str("Host contains potentially dangerous characters"),
                ),
            );
        }
        if config.port == 0 {
            return Err(
                ConnectionError::ConfigurationError(String::from_str("Invalid port number")),
            );
        }
        Ok(())
    }

    /// Build the connection string, percent-encoding every interpolated
    /// value; exactly [`mysql_connection_string`] on success.
    pub fn build_connection_string(
        &self,
        config: &ConnectionConfig,
        credentials: &DatabaseCredentials,
    ) -> (r: Result<String, ConnectionError>)
        ensures
            r is Ok <==> (host_safe(config@.host) && config@.port != 0 && params_safe(
                config@.additional_params,
            )),
            match r {
                Ok(s) => s@ == mysql_connection_string(config@, credentials.password@),
                Err(e) => (if host_safe(config@.host) && config@.port == 0 {
                    e is ConfigurationError
                } else {
                    e is SecurityViolation
                }),
            },
    {
        match self.validate_connection_parameters(config) {
            Ok(()) => {},
            Err(e) => {
                return Err(e);
            },
        }
        let mut out = String::from_str("mysql://");
        let eu = url_encode(config.username.as_str());
        out.append(eu.as_str());
        out.append(":");
        let ep = url_encode(credentials.password.as_str());
        out.append(ep.as_str());
        out.append("@");
        let eh = url_encode(config.host.as_str());
        out.append(eh.as_str());
        out.append(":");
        let port_str = ids::render_id(config.port as u64);
        out.append(port_str.as_str());
        out.append("/");
        let ed = url_encode(config.database.as_str());
        out.append(ed.as_str());
        out.append("?ssl-mode=");
        if config.ssl_enabled {
            out.append("REQUIRED");
        } else {
            out.append("DISABLED");
        }
        if !append_amp_params(&mut out, &config.additional_params) {
            return Err(
                ConnectionError::SecurityViolation(
                    String::from_str("Unsafe connection parameter"),
                ),
            );
        }
        proof {
            assert(out@ =~= mysql_connection_string(config@, credentials.password@));
        }
        Ok(out)
    }

    /// The engine's default port.
    pub fn default_port(&self) -> (r: u16)
        ensures
            r == 3306,
    {
        3306
    }

    /// What the engine supports.
    pub fn supported_features(&self) -> (r: Vec<DatabaseFeature>)
        ensures
            r@ == seq![
                DatabaseFeature::SSL,
                DatabaseFeature::ConnectionPooling,
                DatabaseFeature::Transactions,
                DatabaseFeature::PreparedStatements,
                DatabaseFeature::BulkInsert,
                DatabaseFeature::StoredProcedures,
                DatabaseFeature::Views,
                DatabaseFeature::Triggers,
                DatabaseFeature::FullTextSearch,
            ],
    {
        let mut v: Vec<DatabaseFeature> = Vec::new();
        v.push(DatabaseFeature::SSL);
        v.push(DatabaseFeature::ConnectionPooling);
        v.push(DatabaseFeature::Transactions);
        v.push(DatabaseFeature::PreparedStatements);
        v.push(DatabaseFeature::BulkInsert);
        v.push(DatabaseFeature::StoredProcedures);
        v.push(DatabaseFeature::Views);
        v.push(DatabaseFeature::Triggers);
        v.push(DatabaseFeature::FullTextSearch);
        proof {
            assert(v@ =~= seq![
                DatabaseFeature::SSL,
                DatabaseFeature::ConnectionPooling,
                DatabaseFeature::Transactions,
                DatabaseFeature::PreparedStatements,
                DatabaseFeature::BulkInsert,
                DatabaseFeature::StoredProcedures,
                DatabaseFeature::Views,
                DatabaseFeature::Triggers,
                DatabaseFeature::FullTextSearch,
            ]);
        }
        v
    }

    /// The engine needs a database name.
    pub fn validate_config(&self, config: &ConnectionConfig) -> (r: Result<(), ConnectionError>)
        ensures
            r is Ok <==> !blank(config@.database),
    {
        if is_blank(config.database.as_str()) {
            return Err(
                ConnectionError::ConfigurationError(
                    String::from_str("Database name is required for MySQL"),
                ),
            );
        }
        Ok(())
    }
}

/// The SQLite driver.
#[derive(Debug, Default)]
pub struct SQLiteDriver;

impl SQLiteDriver {
    /// Vet the database file path.
    pub fn validate_sqlite_path(&self, path: &str) -> (r: Result<(), ConnectionError>)
        ensures
            r is Ok <==> sqlite_path_ok(path@),
            r is Err ==> (if sqlite_path_dangerous(path@) {
                r->Err_0 is SecurityViolation
            } else {
                r->Err_0 is ConfigurationError
            }),
    {
        if contains_dotdot_or_doubleslash(path) {
            return Err(
                ConnectionError::SecurityViolation(
                    String::from_str("Path contains potentially dangerous sequences"),
                ),
            );
        }
        if has_char_exec(path, '\0') {
            return Err(
                ConnectionError::SecurityViolation(String::from_str("Path contains null bytes")),
            );
        }
        let n = path.unicode_len();
        if n == 0 || n > 4096 {
            return Err(
                ConnectionError::ConfigurationError(String::from_str("Invalid path length")),
            );
        }
        Ok(())
    }

    /// Build the connection string; exactly [`sqlite_connection_string`]
    /// on success, which needs a sound path and safe parameters.
    pub fn build_connection_string(
        &self,
        config: &ConnectionConfig,
        _credentials: &DatabaseCredentials,
    ) -> (r: Result<String, ConnectionError>)
        ensures
            r is Ok <==> (sqlite_path_ok(config@.database) && params_safe(
                config@.additional_params,
            )),
            match r {
                Ok(s) => s@ == sqlite_connection_string(config@),
                Err(e) => (if !sqlite_path_dangerous(config@.database) && !(0
                    < config@.database.len() <= 4096) {
                    e is ConfigurationError
                } else {
                    e is SecurityViolation
                }),
            },
    {
        match self.validate_sqlite_path(config.database.as_str()) {
            Ok(()) => {},
            Err(e) => {
                return Err(e);
            },
        }
        let mut out = String::from_str("sqlite:");
        let ed = url_encode(config.database.as_str());
        out.append(ed.as_str());
        if !append_q_params(&mut out, &config.additional_params) {
            return Err(
                ConnectionError::SecurityViolation(
                    String::from_str("Unsafe connection parameter"),
                ),
            );
        }
        proof {
            assert(out@ =~= sqlite_connection_string(config@));
        }
        Ok(out)
    }

    /// The engine has no port.
    pub fn default_port(&self) -> (r: u16)
        ensures
            r == 0,
    {
        0
    }

    /// What the engine supports.
    pub fn supported_features(&self) -> (r: Vec<DatabaseFeature>)
        ensures
            r@ == seq![
                DatabaseFeature::Transactions,
                DatabaseFeature::PreparedStatements,
                DatabaseFeature::Views,
                DatabaseFeature::Triggers,
                DatabaseFeature::FullTextSearch,
            ],
    {
        let mut v: Vec<DatabaseFeature> = Vec::new();
        v.push(DatabaseFeature::Transactions);
        v.push(DatabaseFeature::PreparedStatements);
        v.push(DatabaseFeature::Views);
        v.push(DatabaseFeature::Triggers);
        v.push(DatabaseFeature::FullTextSearch);
        proof {
            assert(v@ =~= seq![
                DatabaseFeature::Transactions,
                DatabaseFeature::PreparedStatements,
                DatabaseFeature::Views,
                DatabaseFeature::Triggers,
                DatabaseFeature::FullTextSearch,
            ]);
        }
        v
    }

    /// The engine needs a database file path.  Whether the path's parent
    /// directory exists is the embedding runtime's check.
    pub fn validate_config(&self, config: &ConnectionConfig) -> (r: Result<(), ConnectionError>)
        ensures
            r is Ok <==> !blank(config@.database),
    {
        if is_blank(config.database.as_str()) {
            return Err(
                ConnectionError::ConfigurationError(
                    String::from_str("Database file path is required for SQLite"),
                ),
            );
        }
        Ok(())
    }
}

/// Scan a path for `..` or `//`.
fn contains_dotdot_or_doubleslash(s: &str) -> (r: bool)
    ensures
        r == (crate::config::has_dotdot(s@) || exists|i: int|
            0 <= i && i + 1 < s@.len() && #[trigger] s@[i] == '/' && s@[i + 1] == '/'),
{
    let n = s.unicode_len();
    if n < 2 {
        return false;
    }
    let mut i: usize = 0;
    while i + 1 < n
        invariant
            n == s@.len(),
            i + 1 <= n,
            forall|j: int|
                0 <= j && j + 1 < i + 1 ==> !(#[trigger] s@[j] == '.' && s@[j + 1] == '.'),
            forall|j: int|
                0 <= j && j + 1 < i + 1 ==> !(#[trigger] s@[j] == '/' && s@[j + 1] == '/'),
        decreases n - i,
    {
        let c = s.get_char(i);
        let d = s.get_char(i + 1);
        if (c == '.' && d == '.') || (c == '/' && d == '/') {
            return true;
        }
        i = i + 1;
    }
    false
}

/// Whether a string is empty or all whitespace.
fn is_blank(s: &str) -> (r: bool)
    ensures
        r == blank(s@),
{
    let n = s.unicode_len();
    let mut i: usize = 0;
    while i < n
        invariant
            n == s@.len(),
            i <= n,
            forall|j: int| 0 <= j < i ==> crate::codec::is_ws(#[trigger] s@[j]),
        decreases n - i,
    {
        let c = s.get_char(i);
        if !(c == ' ' || c == '\t' || c == '\r' || c == '\n') {
            return false;
        }
        i = i + 1;
    }
    true
}

/// Append the `?`/`&` clauses for the extra parameters, vetting each.
fn append_q_params(out: &mut String, params: &Vec<(String, String)>) -> (r: bool)
    ensures
        r == params_safe(
            Seq::new(params@.len(), |i: int| (params@[i].0@, params@[i].1@)),
        ),
        r ==> final(out)@ == old(out)@ + q_params(
            Seq::new(params@.len(), |i: int| (params@[i].0@, params@[i].1@)),
        ),
{
    let ghost all: Seq<(Seq<char>, Seq<char>)> = Seq::new(
        params@.len(),
        |i: int| (params@[i].0@, params@[i].1@),
    );
    let n = params.len();
    let mut i: usize = 0;
    while i < n
        invariant
            n == params@.len(),
            i <= n,
            all == Seq::new(params@.len(), |j: int| (params@[j].0@, params@[j].1@)),
            out@ == old(out)@ + q_params(all.subrange(0, i as int)),
            forall|j: int|
                0 <= j < i ==> safe_param_name((#[trigger] all[j]).0) && safe_param_value(
                    all[j].1,
                ),
        decreases n - i,
    {
        let ghost pre = all.subrange(0, i as int);
        let ghost cur = all.subrange(0, i as int + 1);
        proof {
            assert(cur.drop_last() =~= pre);
            assert(cur.last() == all[i as int]);
        }
        let key = &params[i].0;
        let value = &params[i].1;
        proof {
            assert(all[i as int].0 == key@ && all[i as int].1 == value@);
        }
        if !(check_param_name(key.as_str()) && check_param_value(value.as_str())) {
            return false;
        }
        if i == 0 {
            out.append("?");
        } else {
            out.append("&");
        }
        let ek = url_encode(key.as_str());
        out.append(ek.as_str());
        out.append("=");
        let ev = url_encode(value.as_str());
        out.append(ev.as_str());
        i = i + 1;
    }
    proof {
        assert(all.subrange(0, n as int) =~= all);
    }
    true
}

/// The default port of each engine, as a value.
pub open spec fn default_port_of(t: DatabaseType) -> u16 {
    match t {
        DatabaseType::PostgreSQL => 5432u16,
        DatabaseType::MySQL => 3306u16,
        DatabaseType::SQLite => 0u16,
        DatabaseType::SqlServer => 1433u16,
        DatabaseType::Oracle => 1521u16,
    }
}

/// Chooses and describes drivers.
#[derive(Debug)]
pub struct DatabaseDriverFactory;

impl DatabaseDriverFactory {
    /// The default port of each engine; zero for the file-backed one.
    pub fn get_default_port(database_type: &DatabaseType) -> (r: u16)
        ensures
            r == default_port_of(*database_type),
    {
        match database_type {
            DatabaseType::PostgreSQL => 5432,
            DatabaseType::MySQL => 3306,
            DatabaseType::SQLite => 0,
            DatabaseType::SqlServer => 1433,
            DatabaseType::Oracle => 1521,
        }
    }
}

} // verus!
