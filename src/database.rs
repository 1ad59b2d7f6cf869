//! Database side: connection settings, the relocation of a connection onto a
//! tunnel's local endpoint, and the arguments and statements with which the
//! engine's client utilities are driven for a backup or a restore.

use vstd::prelude::*;
use crate::retention::string_views;
use crate::timestamp::{digits_value, is_digit, read_digits};

verus! {

#[derive(Debug, Clone, Copy, PartialEq, Eq, Structural)]
pub enum ConnectionType {
    PostgreSql,
}

#[derive(Debug, Clone)]
pub enum SshAuthMethod {
    Password { password: String },
    PrivateKey { key_path: String, passphrase: Option<String> },
}

/// Where and as whom to open the tunnel's secure session.
#[derive(Debug, Clone)]
pub struct SshTunnelConfig {
    pub host: String,
    pub port: u16,
    pub username: String,
    pub auth: SshAuthMethod,
}

/// The destination that a tunnel forwards to.
#[derive(Debug, Clone)]
pub struct SshRemoteConfig {
    pub host: String,
    pub port: u16,
}

#[derive(Debug, Clone)]
pub struct DatabaseConfig {
    pub id: String,
    pub name: String,
    pub connection_type: ConnectionType,
    pub host: String,
    pub port: u16,
    pub database: String,
    pub username: String,
    pub password: Option<String>,
    pub ssh_tunnel: Option<SshTunnelConfig>,
}

#[derive(Debug, Clone, Copy, PartialEq, Eq, Structural)]
pub struct RestoreOptions {
    pub drop_database_first: bool,
}

/// What the plain restore entry point does: drop and recreate the target first.
pub fn default_restore_options() -> (r: RestoreOptions)
    ensures
        r.drop_database_first,
{
    RestoreOptions { drop_database_first: true }
}

/// The destination a tunnel for `config` has to forward to: the configured
/// host and port, as they were before any relocation.
pub fn remote_endpoint(config: &DatabaseConfig) -> (r: SshRemoteConfig)
    ensures
        r.host@ == config.host@,
        r.port == config.port,
{
    SshRemoteConfig { host: config.host.clone(), port: config.port }
}

pub open spec fn same_except_endpoint(a: DatabaseConfig, b: DatabaseConfig) -> bool {
    &&& a.id == b.id
    &&& a.name == b.name
    &&& a.connection_type == b.connection_type
    &&& a.database == b.database
    &&& a.username == b.username
    &&& a.password == b.password
    &&& a.ssh_tunnel == b.ssh_tunnel
}

/// Relocates a connection onto the local end of its tunnel: the host becomes
/// `localhost` and the port the tunnel's local port; nothing else changes.
pub fn apply_tunnel(config: DatabaseConfig, local_port: u16) -> (r: DatabaseConfig)
    ensures
        r.host@ == "localhost"@,
        r.port == local_port,
        same_except_endpoint(r, config),
{
    let mut c = config;
    c.host = String::from_str("localhost");
    c.port = local_port;
    c
}

pub open spec fn digit_char(d: int) -> char {
    ('0' as int + d) as char
}

/// The decimal notation of `n`, without leading zeros.
pub open spec fn decimal_digits(n: nat) -> Seq<char>
    decreases n,
{
    if n < 10 {
        seq![digit_char(n as int)]
    } else {
        decimal_digits(n / 10).push(digit_char((n % 10) as int))
    }
}

fn digit_str(d: u16) -> (r: &'static str)
    requires
        d < 10,
    ensures
        r@ == seq![digit_char(d as int)],
{
    if d == 0 {
        proof { reveal_strlit("0"); }
        assert("0"@ =~= seq![digit_char(0)]);
        "0"
    } else if d == 1 {
        proof { reveal_strlit("1"); }
        assert("1"@ =~= seq![digit_char(1)]);
        "1"
    } else if d == 2 {
        proof { reveal_strlit("2"); }
        assert("2"@ =~= seq![digit_char(2)]);
        "2"
    } else if d == 3 {
        proof { reveal_strlit("3"); }
        assert("3"@ =~= seq![digit_char(3)]);
        "3"
    } else if d == 4 {
        proof { reveal_strlit("4"); }
        assert("4"@ =~= seq![digit_char(4)]);
        "4"
    } else if d == 5 {
        proof { reveal_strlit("5"); }
        assert("5"@ =~= seq![digit_char(5)]);
        "5"
    } else if d == 6 {
        proof { reveal_strlit("6"); }
        assert("6"@ =~= seq![digit_char(6)]);
        "6"
    } else if d == 7 {
        proof { reveal_strlit("7"); }
        assert("7"@ =~= seq![digit_char(7)]);
        "7"
    } else if d == 8 {
        proof { reveal_strlit("8"); }
        assert("8"@ =~= seq![digit_char(8)]);
        "8"
    } else {
        proof { reveal_strlit("9"); }
        assert("9"@ =~= seq![digit_char(9)]);
        "9"
    }
}

/// A port number in decimal, as command-line arguments carry it.
pub fn port_string(n: u16) -> (r: String)
    ensures
        r@ == decimal_digits(n as nat),
    decreases n,
{
    if n < 10 {
        String::from_str(digit_str(n))
    } else {
        let mut s = port_string(n / 10);
        s.append(digit_str(n % 10));
        s
    }
}

/// `-h <host> -p <port> -U <user> -d <database>`.
pub open spec fn connection_args_spec(c: DatabaseConfig, database: Seq<char>) -> Seq<Seq<char>> {
    seq!["-h"@, c.host@, "-p"@, decimal_digits(c.port as nat), "-U"@, c.username@, "-d"@, database]
}

/// The arguments that point a client utility at `database` on the
/// configured server as the configured user.
pub fn connection_args(config: &DatabaseConfig, database: &str) -> (r: Vec<String>)
    ensures
        string_views(r@) == connection_args_spec(*config, database@),
{
    let mut v: Vec<String> = Vec::new();
    v.push(String::from_str("-h"));
    v.push(config.host.clone());
    v.push(String::from_str("-p"));
    v.push(port_string(config.port));
    v.push(String::from_str("-U"));
    v.push(config.username.clone());
    v.push(String::from_str("-d"));
    v.push(String::from_str(database));
    assert(string_views(v@) =~= connection_args_spec(*config, database@));
    v
}

/// Flags of a full plain-text dump: every user schema, statements that drop
/// objects before creating them, no ownership, large objects included, and
/// the internal and system schemas left out.
pub open spec fn dump_flags_spec() -> Seq<Seq<char>> {
    seq![
        "--format=plain"@,
        "--encoding=UTF8"@,
        "--schema=*"@,
        "--clean"@,
        "--if-exists"@,
        "--no-owner"@,
        "--blobs"@,
        "--exclude-schema=information_schema"@,
        "--exclude-schema=pg_catalog"@,
        "--exclude-schema=pg_toast"@,
        "--exclude-schema=pg_temp*"@,
        "--exclude-schema=pg_toast_temp*"@,
    ]
}

/// All arguments of the dump utility for a backup of the configured database.
pub fn backup_args(config: &DatabaseConfig) -> (r: Vec<String>)
    ensures
        string_views(r@) == connection_args_spec(*config, config.database@) + dump_flags_spec(),
{
    let mut v = connection_args(config, config.database.as_str());
    let ghost base = v@;
    v.push(String::from_str("--format=plain"));
    v.push(String::from_str("--encoding=UTF8"));
    v.push(String::from_str("--schema=*"));
    v.push(String::from_str("--clean"));
    v.push(String::from_str("--if-exists"));
    v.push(String::from_str("--no-owner"));
    v.push(String::from_str("--blobs"));
    v.push(String::from_str("--exclude-schema=information_schema"));
    v.push(String::from_str("--exclude-schema=pg_catalog"));
    v.push(String::from_str("--exclude-schema=pg_toast"));
    v.push(String::from_str("--exclude-schema=pg_temp*"));
    v.push(String::from_str("--exclude-schema=pg_toast_temp*"));
    assert(string_views(v@) =~= string_views(base) + dump_flags_spec());
    v
}

/// One step of a restore; each is run and checked before the next one.
#[derive(Debug, Clone, Copy, PartialEq, Eq, Structural)]
pub enum RestoreStep {
    /// End every other session on the target database.
    TerminateSessions,
    DropDatabase,
    CreateDatabase,
    /// Feed the dump to the client utility connected to the target database.
    Replay,
}

pub open spec fn restore_steps_spec(options: RestoreOptions) -> Seq<RestoreStep> {
    if options.drop_database_first {
        seq![
            RestoreStep::TerminateSessions,
            RestoreStep::DropDatabase,
            RestoreStep::CreateDatabase,
            RestoreStep::Replay,
        ]
    } else {
        seq![RestoreStep::TerminateSessions, RestoreStep::Replay]
    }
}

/// The steps of a restore, in the order in which they run.
pub fn restore_steps(options: RestoreOptions) -> (r: Vec<RestoreStep>)
    ensures
        r@ == restore_steps_spec(options),
{
    let mut v: Vec<RestoreStep> = Vec::new();
    v.push(RestoreStep::TerminateSessions);
    if options.drop_database_first {
        v.push(RestoreStep::DropDatabase);
        v.push(RestoreStep::CreateDatabase);
    }
    v.push(RestoreStep::Replay);
    assert(v@ =~= restore_steps_spec(options));
    v
}

/// What a restore does next.
#[derive(Debug, Clone, Copy, PartialEq, Eq, Structural)]
pub enum RestoreAction {
    Run(RestoreStep),
    /// Every step succeeded.
    Finished,
    /// This step failed; no later step is attempted.
    Abort(RestoreStep),
}

/// The decision of a restore after `attempted` steps, the last of which
/// succeeded when `last_succeeded` holds: a failed step ends the restore,
/// otherwise the next step runs, and after the last step the restore is done.
pub fn next_restore_action(options: RestoreOptions, attempted: usize, last_succeeded: bool) -> (r: RestoreAction)
    requires
        attempted <= restore_steps_spec(options).len(),
    ensures
        attempted > 0 && !last_succeeded ==> r == RestoreAction::Abort(
            restore_steps_spec(options)[attempted - 1],
        ),
        (attempted == 0 || last_succeeded) && attempted < restore_steps_spec(options).len() ==> r
            == RestoreAction::Run(restore_steps_spec(options)[attempted as int]),
        (attempted == 0 || last_succeeded) && attempted == restore_steps_spec(options).len() ==> r
            == RestoreAction::Finished,
{
    let steps = restore_steps(options);
    if attempted > 0 && !last_succeeded {
        RestoreAction::Abort(steps[attempted - 1])
    } else if attempted < steps.len() {
        RestoreAction::Run(steps[attempted])
    } else {
        RestoreAction::Finished
    }
}

pub open spec fn terminate_sessions_sql_spec(db: Seq<char>) -> Seq<char> {
    "SELECT pg_terminate_backend(pg_stat_activity.pid) FROM pg_stat_activity WHERE pg_stat_activity.datname = '"@
        + db + "' AND pid <> pg_backend_pid();"@
}

pub open spec fn drop_database_sql_spec(db: Seq<char>) -> Seq<char> {
    "DROP DATABASE IF EXISTS \""@ + db + "\";"@
}

pub open spec fn create_database_sql_spec(db: Seq<char>) -> Seq<char> {
    "CREATE DATABASE \""@ + db + "\";"@
}

/// The statement that ends every session on `db` but the caller's own.
pub fn terminate_sessions_sql(db: &str) -> (r: String)
    ensures
        r@ == terminate_sessions_sql_spec(db@),
{
    let s = String::from_str(
        "SELECT pg_terminate_backend(pg_stat_activity.pid) FROM pg_stat_activity WHERE pg_stat_activity.datname = '",
    );
    let s = s.concat(db);
    s.concat("' AND pid <> pg_backend_pid();")
}

pub fn drop_database_sql(db: &str) -> (r: String)
    ensures
        r@ == drop_database_sql_spec(db@),
{
    let s = String::from_str("DROP DATABASE IF EXISTS \"");
    let s = s.concat(db);
    s.concat("\";")
}

pub fn create_database_sql(db: &str) -> (r: String)
    ensures
        r@ == create_database_sql_spec(db@),
{
    let s = String::from_str("CREATE DATABASE \"");
    let s = s.concat(db);
    s.concat("\";")
}

/// The administrative database that the session-ending, drop and create
/// statements run against.
pub open spec fn admin_database() -> Seq<char> {
    "postgres"@
}

pub open spec fn restore_step_args_spec(c: DatabaseConfig, step: RestoreStep) -> Seq<Seq<char>> {
    match step {
        RestoreStep::TerminateSessions => connection_args_spec(c, admin_database()) + seq![
            "-c"@,
            terminate_sessions_sql_spec(c.database@),
        ],
        RestoreStep::DropDatabase => connection_args_spec(c, admin_database()) + seq![
            "-c"@,
            drop_database_sql_spec(c.database@),
        ],
        RestoreStep::CreateDatabase => connection_args_spec(c, admin_database()) + seq![
            "-c"@,
            create_database_sql_spec(c.database@),
        ],
        RestoreStep::Replay => connection_args_spec(c, c.database@),
    }
}

/// The arguments of the client utility for one step of a restore.
pub fn restore_step_args(config: &DatabaseConfig, step: RestoreStep) -> (r: Vec<String>)
    ensures
        string_views(r@) == restore_step_args_spec(*config, step),
{
    match step {
        RestoreStep::Replay => connection_args(config, config.database.as_str()),
        _ => {
            let mut v = connection_args(config, "postgres");
            let ghost base = v@;
            v.push(String::from_str("-c"));
            let sql = match step {
                RestoreStep::TerminateSessions => terminate_sessions_sql(config.database.as_str()),
                RestoreStep::DropDatabase => drop_database_sql(config.database.as_str()),
                _ => create_database_sql(config.database.as_str()),
            };
            let ghost sql_view = sql@;
            v.push(sql);
            assert(string_views(v@) =~= string_views(base) + seq!["-c"@, sql_view]);
            v
        },
    }
}

/// The environment variable that hands the password to a client utility
/// (never on its command line), when a password is configured.
pub fn password_env(config: &DatabaseConfig) -> (r: Option<(String, String)>)
    ensures
        match (r, config.password) {
            (Some((k, v)), Some(p)) => k@ == "PGPASSWORD"@ && v@ == p@,
            (None, None) => true,
            _ => false,
        },
{
    match &config.password {
        Some(p) => Some((String::from_str("PGPASSWORD"), p.clone())),
        None => None,
    }
}

/// The server version that selects a matching client utility.
#[derive(Debug, Clone, Copy, PartialEq, Eq, Structural)]
pub struct PostgreSqlVersion {
    pub major: u32,
    pub minor: Option<u32>,
}

/// The number of consecutive digits of `s` from index `i` on.
pub open spec fn digit_run(s: Seq<char>, i: int) -> int
    decreases s.len() - i,
{
    if 0 <= i < s.len() && is_digit(s[i]) {
        1 + digit_run(s, i + 1)
    } else {
        0
    }
}

proof fn lemma_digit_run_nonneg(s: Seq<char>, i: int)
    ensures
        digit_run(s, i) >= 0,
    decreases s.len() - i,
{
    if 0 <= i < s.len() && is_digit(s[i]) {
        lemma_digit_run_nonneg(s, i + 1);
    }
}

/// What the server's version report starts with: `PostgreSQL <major>`,
/// optionally `.<minor>`, each of one to four digits; anything may follow.
/// A dot followed by no digit leaves the minor version unknown.
pub open spec fn parse_version_spec(s: Seq<char>) -> Option<(int, Option<int>)> {
    if s.len() >= 11 && s.subrange(0, 11) == "PostgreSQL "@ {
        let n1 = digit_run(s, 11);
        if 1 <= n1 <= 4 {
            let major = digits_value(s.subrange(11, 11 + n1));
            let d = 11 + n1;
            if d < s.len() && s[d] == '.' {
                let n2 = digit_run(s, d + 1);
                if n2 == 0 {
                    Some((major, None))
                } else if n2 <= 4 {
                    Some((major, Some(digits_value(s.subrange(d + 1, d + 1 + n2)))))
                } else {
                    None
                }
            } else {
                Some((major, None))
            }
        } else {
            None
        }
    } else {
        None
    }
}

pub open spec fn version_view(v: PostgreSqlVersion) -> (int, Option<int>) {
    (
        v.major as int,
        match v.minor {
            Some(m) => Some(m as int),
            None => None,
        },
    )
}

/// The length of the digit run of `s` from `from`, counted up to `cap`.
fn digit_run_capped(s: &str, from: usize, cap: usize) -> (r: usize)
    requires
        from <= s@.len(),
        cap <= 5,
    ensures
        r as int == (if digit_run(s@, from as int) < cap { digit_run(s@, from as int) } else { cap as int }),
{
    let n = s.unicode_len();
    let mut i: usize = from;
    while i < n && i - from < cap && is_ascii_digit(s.get_char(i))
        invariant
            from <= i <= n,
            n == s@.len(),
            i - from <= cap,
            digit_run(s@, from as int) == (i - from) + digit_run(s@, i as int),
        decreases n - i,
    {
        i = i + 1;
    }
    proof {
        lemma_digit_run_nonneg(s@, i as int);
    }
    i - from
}

fn is_ascii_digit(c: char) -> (r: bool)
    ensures
        r == is_digit(c),
{
    '0' <= c && c <= '9'
}

/// Reads the engine version out of the server's version report; `None` when
/// the report does not have the expected shape.
pub fn parse_postgres_version(s: &str) -> (r: Option<PostgreSqlVersion>)
    ensures
        match r {
            Some(v) => parse_version_spec(s@) == Some(version_view(v)),
            None => parse_version_spec(s@) is None,
        },
{
    let p = "PostgreSQL ";
    proof {
        reveal_strlit("PostgreSQL ");
    }
    let n = s.unicode_len();
    if n < 11 {
        return None;
    }
    let mut k: usize = 0;
    while k < 11
        invariant
            k <= 11,
            11 <= n,
            n == s@.len(),
            p@ == "PostgreSQL "@,
            p@.len() == 11,
            forall|j: int| 0 <= j < k ==> s@[j] == p@[j],
        decreases 11 - k,
    {
        if s.get_char(k) != p.get_char(k) {
            assert(s@.subrange(0, 11)[k as int] != p@[k as int]);
            return None;
        }
        k = k + 1;
    }
    assert(s@.subrange(0, 11) =~= "PostgreSQL "@);
    let n1 = digit_run_capped(s, 11, 5);
    if n1 < 1 || n1 > 4 {
        return None;
    }
    proof {
        lemma_digits_of_run(s@, 11, n1 as int);
    }
    let major = read_digits(s, 11, n1);
    let d = 11 + n1;
    if d < n && s.get_char(d) == '.' {
        let n2 = digit_run_capped(s, d + 1, 5);
        if n2 == 0 {
            Some(PostgreSqlVersion { major, minor: None })
        } else if n2 <= 4 {
            proof {
                lemma_digits_of_run(s@, d + 1, n2 as int);
            }
            let minor = read_digits(s, d + 1, n2);
            Some(PostgreSqlVersion { major, minor: Some(minor) })
        } else {
            None
        }
    } else {
        Some(PostgreSqlVersion { major, minor: None })
    }
}

proof fn lemma_digits_of_run(s: Seq<char>, i: int, m: int)
    requires
        0 <= i <= s.len(),
        0 <= m <= digit_run(s, i),
    ensures
        i + m <= s.len(),
        forall|k: int| i <= k < i + m ==> is_digit(#[trigger] s[k]),
    decreases m,
{
    if m > 0 {
        assert(0 <= i < s.len() && is_digit(s[i]));
        lemma_digits_of_run(s, i + 1, m - 1);
    }
}

} // verus!
