use dbkp_core::database::{
    apply_tunnel, backup_args, connection_args, create_database_sql, default_restore_options,
    drop_database_sql, next_restore_action, parse_postgres_version, password_env, PostgreSqlVersion,
    RestoreAction, port_string, remote_endpoint, restore_step_args,
    restore_steps, terminate_sessions_sql, ConnectionType, DatabaseConfig, RestoreOptions,
    RestoreStep, SshAuthMethod, SshTunnelConfig,
};

fn config() -> DatabaseConfig {
    DatabaseConfig {
        id: "id".into(),
        name: "main".into(),
        connection_type: ConnectionType::PostgreSql,
        host: "db.example.com".into(),
        port: 5432,
        database: "test".into(),
        username: "username".into(),
        password: Some("password".into()),
        ssh_tunnel: Some(SshTunnelConfig {
            host: "ssh_host".into(),
            port: 22,
            username: "ssh_username".into(),
            auth: SshAuthMethod::PrivateKey { key_path: "ssh_key_path".into(), passphrase: None },
        }),
    }
}

fn strs(v: &[&str]) -> Vec<String> {
    v.iter().map(|s| s.to_string()).collect()
}

#[test]
fn ports_in_decimal() {
    assert_eq!(port_string(0), "0");
    assert_eq!(port_string(7), "7");
    assert_eq!(port_string(10), "10");
    assert_eq!(port_string(5432), "5432");
    assert_eq!(port_string(65535), "65535");
}

#[test]
fn tunnel_relocates_host_and_port_only() {
    let c = config();
    let remote = remote_endpoint(&c);
    assert_eq!(remote.host, "db.example.com");
    assert_eq!(remote.port, 5432);
    let t = apply_tunnel(c, 40123);
    assert_eq!(t.host, "localhost");
    assert_eq!(t.port, 40123);
    assert_eq!(t.database, "test");
    assert_eq!(t.username, "username");
    assert_eq!(t.password.as_deref(), Some("password"));
    assert_eq!(t.ssh_tunnel.unwrap().host, "ssh_host");
}

#[test]
fn connection_arguments() {
    assert_eq!(
        connection_args(&config(), "postgres"),
        strs(&["-h", "db.example.com", "-p", "5432", "-U", "username", "-d", "postgres"])
    );
}

#[test]
fn dump_arguments() {
    let args = backup_args(&config());
    assert_eq!(args.len(), 20);
    assert_eq!(&args[..8], &strs(&["-h", "db.example.com", "-p", "5432", "-U", "username", "-d", "test"])[..]);
    assert_eq!(args[8], "--format=plain");
    assert!(args.contains(&"--exclude-schema=pg_catalog".to_string()));
    assert_eq!(args[19], "--exclude-schema=pg_toast_temp*");
}

#[test]
fn restore_statements() {
    assert_eq!(drop_database_sql("shop"), "DROP DATABASE IF EXISTS \"shop\";");
    assert_eq!(create_database_sql("shop"), "CREATE DATABASE \"shop\";");
    assert_eq!(
        terminate_sessions_sql("shop"),
        "SELECT pg_terminate_backend(pg_stat_activity.pid) FROM pg_stat_activity WHERE pg_stat_activity.datname = 'shop' AND pid <> pg_backend_pid();"
    );
}

#[test]
fn restore_plans() {
    assert!(default_restore_options().drop_database_first);
    assert_eq!(
        restore_steps(default_restore_options()),
        vec![
            RestoreStep::TerminateSessions,
            RestoreStep::DropDatabase,
            RestoreStep::CreateDatabase,
            RestoreStep::Replay
        ]
    );
    assert_eq!(
        restore_steps(RestoreOptions { drop_database_first: false }),
        vec![RestoreStep::TerminateSessions, RestoreStep::Replay]
    );
}

#[test]
fn restore_step_arguments() {
    let c = config();
    let drop = restore_step_args(&c, RestoreStep::DropDatabase);
    assert_eq!(drop.len(), 10);
    assert_eq!(drop[7], "postgres");
    assert_eq!(drop[8], "-c");
    assert_eq!(drop[9], "DROP DATABASE IF EXISTS \"test\";");
    assert_eq!(
        restore_step_args(&c, RestoreStep::Replay),
        strs(&["-h", "db.example.com", "-p", "5432", "-U", "username", "-d", "test"])
    );
}

#[test]
fn password_goes_to_environment() {
    let c = config();
    assert_eq!(password_env(&c), Some(("PGPASSWORD".to_string(), "password".to_string())));
    let mut none = config();
    none.password = None;
    assert_eq!(password_env(&none), None);
}

#[test]
fn restore_stops_at_first_failure() {
    let opts = default_restore_options();
    assert_eq!(next_restore_action(opts, 0, true), RestoreAction::Run(RestoreStep::TerminateSessions));
    assert_eq!(next_restore_action(opts, 1, true), RestoreAction::Run(RestoreStep::DropDatabase));
    assert_eq!(next_restore_action(opts, 2, false), RestoreAction::Abort(RestoreStep::DropDatabase));
    assert_eq!(next_restore_action(opts, 4, true), RestoreAction::Finished);
    let keep = RestoreOptions { drop_database_first: false };
    assert_eq!(next_restore_action(keep, 1, true), RestoreAction::Run(RestoreStep::Replay));
    assert_eq!(next_restore_action(keep, 2, false), RestoreAction::Abort(RestoreStep::Replay));
}

#[test]
fn server_version_reports() {
    assert_eq!(
        parse_postgres_version("PostgreSQL 16.2 (Debian 16.2-1.pgdg120+2) on x86_64-pc-linux-gnu"),
        Some(PostgreSqlVersion { major: 16, minor: Some(2) })
    );
    assert_eq!(
        parse_postgres_version("PostgreSQL 9.6.24 on x86_64"),
        Some(PostgreSqlVersion { major: 9, minor: Some(6) })
    );
    assert_eq!(
        parse_postgres_version("PostgreSQL 17beta1 on aarch64"),
        Some(PostgreSqlVersion { major: 17, minor: None })
    );
    assert_eq!(parse_postgres_version("PostgreSQL 15"), Some(PostgreSqlVersion { major: 15, minor: None }));
    assert_eq!(parse_postgres_version("PostgreSQL 15."), Some(PostgreSqlVersion { major: 15, minor: None }));
}

#[test]
fn unreadable_server_version_reports() {
    assert_eq!(parse_postgres_version(""), None);
    assert_eq!(parse_postgres_version("MySQL 8.0.36"), None);
    assert_eq!(parse_postgres_version("PostgreSQL x16"), None);
    assert_eq!(parse_postgres_version("PostgreSQL 12345.1"), None);
    assert_eq!(parse_postgres_version("PostgreSQL 16.12345"), None);
    assert_eq!(parse_postgres_version("postgresql 16.2"), None);
}
