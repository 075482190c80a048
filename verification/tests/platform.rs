use fabro::credentials::{
    empty_vault, env_credential_source, vault_only_credential_source, ApiCredential,
    ExtraHeadersCredentialSource, ResolvedCredentials, StubCredentialSource,
};
use fabro::database::{
    after_step, begin_migration, needs_snapshot, pre_migration_snapshot_name, MigrationStep,
    StepEnd,
};
use fabro::mcp_server::{
    invoked_executable, is_executable_file, server_exit, server_info, tool_reply, was_replaced,
    ExecutableChoice, ExecutableIdentity, McpServerExit, PathCandidate, RunTool, ToolOutcome,
    ToolReply,
};
use fabro::reasoning::ReasoningOutput;
use fabro::text_map::TextMap;

// ---- Credentials ----

fn headers(entries: &[(&str, &str)]) -> TextMap<String> {
    let mut map = TextMap::new();
    for (name, value) in entries {
        map.insert(name.to_string(), value.to_string());
    }
    map
}

fn credential(provider: &str, extra_headers: TextMap<String>) -> ApiCredential {
    ApiCredential {
        provider: provider.to_string(),
        auth_header: None,
        extra_headers,
        base_url: None,
        codex_mode: false,
        org_id: None,
        project_id: None,
    }
}

fn resolved(credentials: Vec<ApiCredential>) -> Result<ResolvedCredentials, String> {
    Ok(ResolvedCredentials {
        credentials,
        auth_issues: vec![],
    })
}

fn session_source() -> ExtraHeadersCredentialSource<()> {
    ExtraHeadersCredentialSource::new((), headers(&[("x-session-id", "run-123")]))
}

#[test]
fn appends_headers_to_every_resolved_credential() {
    let inner = resolved(vec![
        credential("anthropic", headers(&[])),
        credential("openai", headers(&[])),
    ]);
    let resolved = session_source().resolve(inner).unwrap();
    assert_eq!(resolved.credentials.len(), 2);
    for credential in &resolved.credentials {
        assert_eq!(
            credential.extra_headers.get("x-session-id"),
            Some(&"run-123".to_string())
        );
    }
}

#[test]
fn preserves_headers_already_set_on_a_credential() {
    let inner = resolved(vec![credential(
        "openrouter",
        headers(&[("x-session-id", "configured"), ("x-other", "kept")]),
    )]);
    let resolved = session_source().resolve(inner).unwrap();
    let extra_headers = &resolved.credentials[0].extra_headers;
    assert_eq!(
        extra_headers.get("x-session-id"),
        Some(&"configured".to_string())
    );
    assert_eq!(extra_headers.get("x-other"), Some(&"kept".to_string()));
}

#[test]
fn passes_through_auth_issues_and_configured_providers() {
    let issue = ("anthropic".to_string(), "not configured".to_string());
    let inner: Result<_, String> = Ok(ResolvedCredentials {
        credentials: vec![credential("openai", headers(&[]))],
        auth_issues: vec![issue.clone()],
    });
    let source = session_source();
    let resolved = source.resolve(inner).unwrap();
    assert_eq!(resolved.auth_issues, vec![issue]);
    assert_eq!(resolved.credentials[0].provider, "openai");
    assert_eq!(
        source.configured_providers(vec!["openai".to_string()]),
        vec!["openai".to_string()]
    );
    assert_eq!(source.resolve(Err("vault locked")), Err("vault locked"));
}

#[test]
fn stub_sources_resolve_nothing() {
    let stub = StubCredentialSource::default();
    assert!(stub.resolve().credentials.is_empty());
    assert!(stub.resolve().auth_issues.is_empty());
    assert!(stub.configured_providers().is_empty());
    assert!(empty_vault().is_empty());
    let from_env = env_credential_source("lookup");
    assert!(from_env.vault.is_empty());
    assert_eq!(from_env.env_lookup, Some("lookup"));
    assert_eq!(vault_only_credential_source::<()>().env_lookup, None);
}

// ---- The database ----

#[test]
fn snapshots_are_named_after_the_database() {
    assert_eq!(
        pre_migration_snapshot_name(Some("runs.sqlite3")),
        "runs.sqlite3.pre-migration.bak"
    );
    assert_eq!(
        pre_migration_snapshot_name(None),
        "fabro.sqlite3.pre-migration.bak"
    );
}

#[test]
fn snapshots_are_taken_before_new_migrations_only() {
    assert!(!needs_snapshot(&vec![], &vec![1, 2]));
    assert!(!needs_snapshot(&vec![2, 1, 9], &vec![1, 2]));
    assert!(needs_snapshot(&vec![1], &vec![1, 2]));
    assert_eq!(begin_migration(&vec![], &vec![1]), MigrationStep::RunMigrations);
}

/// Runs a migration whose steps end as `ends` says, and gives the steps.
fn migrate(ends: &[StepEnd]) -> Vec<MigrationStep> {
    let mut steps = vec![begin_migration(&vec![1], &vec![1, 2])];
    for end in ends {
        steps.push(after_step(*steps.last().unwrap(), *end));
    }
    steps
}

#[test]
fn migrations_run_behind_a_private_snapshot() {
    assert_eq!(
        migrate(&[
            StepEnd::NotFound,
            StepEnd::Succeeded,
            StepEnd::Succeeded,
            StepEnd::Succeeded,
        ]),
        vec![
            MigrationStep::RemoveStaleSnapshot,
            MigrationStep::WriteSnapshot,
            MigrationStep::RestrictSnapshot,
            MigrationStep::RunMigrations,
            MigrationStep::Done,
        ]
    );
}

#[test]
fn failed_snapshots_fail_the_migration() {
    for ends in [
        vec![StepEnd::Failed],
        vec![StepEnd::Succeeded, StepEnd::NotFound],
        vec![StepEnd::Succeeded, StepEnd::Succeeded, StepEnd::Failed],
    ] {
        let steps = migrate(&ends);
        assert_eq!(steps.last(), Some(&MigrationStep::Failed));
        assert!(!steps.contains(&MigrationStep::RunMigrations));
    }
    assert_eq!(
        after_step(MigrationStep::RunMigrations, StepEnd::Failed),
        MigrationStep::Failed
    );
}

// ---- The MCP server ----

fn identity() -> ExecutableIdentity {
    ExecutableIdentity {
        len: 7,
        modified: Some(1_000),
        device: Some(1),
        inode: Some(2),
    }
}

#[test]
fn unchanged_executable_is_current() {
    assert!(!was_replaced(&identity(), Some(&identity())));
    let unknown_time = ExecutableIdentity {
        modified: None,
        ..identity()
    };
    assert!(!was_replaced(&unknown_time, Some(&unknown_time)));
}

#[test]
fn atomic_executable_replacement_is_detected() {
    for replacement in [
        ExecutableIdentity { len: 14, ..identity() },
        ExecutableIdentity { modified: Some(1_001), ..identity() },
        ExecutableIdentity { modified: None, ..identity() },
        ExecutableIdentity { device: Some(9), ..identity() },
        ExecutableIdentity { inode: Some(3), ..identity() },
    ] {
        assert!(was_replaced(&identity(), Some(&replacement)));
    }
}

#[test]
fn removed_executable_is_detected() {
    assert!(was_replaced(&identity(), None));
}

#[test]
fn executable_check_rejects_directories() {
    assert!(!is_executable_file(false, Some(0o755)));
    assert!(is_executable_file(true, Some(0o100)));
    assert!(is_executable_file(true, Some(0o001)));
    assert!(!is_executable_file(true, Some(0o644)));
    assert!(is_executable_file(true, None));
}

fn candidate(path: Result<&'static str, &'static str>, executable: bool) -> PathCandidate<&'static str, &'static str> {
    PathCandidate { path, executable }
}

#[test]
fn executables_are_looked_up_in_the_order_of_the_path() {
    let found = invoked_executable(
        1,
        vec![
            candidate(Ok("/a/fabro"), false),
            candidate(Ok("/b/fabro"), true),
            candidate(Err("no directory"), false),
        ],
    );
    assert_eq!(found, ExecutableChoice::Candidate("/b/fabro"));
    let failed = invoked_executable(
        1,
        vec![candidate(Err("no directory"), false), candidate(Ok("/b/fabro"), true)],
    );
    assert_eq!(failed, ExecutableChoice::Failed("no directory"));
    let none = invoked_executable(1, vec![candidate(Ok("/a/fabro"), false)]);
    assert_eq!(none, ExecutableChoice::CurrentExe);
    let named = invoked_executable(2, vec![candidate(Ok("/a/fabro"), true)]);
    assert_eq!(named, ExecutableChoice::Invoked);
}

#[test]
fn servers_end_by_their_service_or_a_replacement() {
    assert_eq!(
        server_exit::<String>(false, Ok(())),
        Ok(McpServerExit::ServiceStopped)
    );
    assert_eq!(
        server_exit::<String>(true, Ok(())),
        Ok(McpServerExit::ExecutableReplaced)
    );
    assert_eq!(server_exit(true, Err("broken pipe")), Err("broken pipe"));
}

#[test]
fn server_info_reports_fabro_version() {
    let info = server_info("1.2.3");
    assert_eq!(info.name, "fabro");
    assert_eq!(info.title, "Fabro");
    assert_eq!(info.version, "1.2.3");
}

#[test]
fn tool_calls_are_answered_by_the_first_fault() {
    let fault = |text: &str| Err(text.to_string());
    let error = |text: &str| {
        Ok(ToolReply::<u8>::Error {
            text: text.to_string(),
        })
    };
    let done = |structured: Result<u8, &str>| {
        Ok(ToolOutcome {
            structured: structured.map_err(str::to_string),
            text: "seven".to_string(),
        })
    };
    assert_eq!(
        tool_reply(fault("parameters"), fault("backend"), done(Ok(7))),
        error("parameters")
    );
    assert_eq!(
        tool_reply(Ok(()), fault("backend"), done(Ok(7))),
        error("backend")
    );
    assert_eq!(
        tool_reply(Ok(()), Ok(()), Err("outcome".to_string())),
        error("outcome")
    );
    assert_eq!(
        tool_reply(Ok(()), Ok(()), done(Ok(7))),
        Ok(ToolReply::Success {
            structured: 7,
            text: "seven".to_string()
        })
    );
    assert_eq!(
        tool_reply(Ok(()), Ok(()), done(Err("key must be a string"))),
        Err("failed to serialize Fabro MCP tool result: key must be a string".to_string())
    );
}

// ---- Reasoning ----

#[test]
fn reasoning_without_text_is_empty() {
    assert!(ReasoningOutput::default().is_empty());
    let summary = ReasoningOutput {
        summary: Some("checked the parser first".to_string()),
        trace: None,
    };
    assert!(!summary.is_empty());
    let trace = ReasoningOutput {
        summary: None,
        trace: Some(String::new()),
    };
    assert!(!trace.is_empty());
}

#[test]
fn run_tools_are_found_by_their_names() {
    let names: Vec<&str> = RunTool::all().into_iter().map(RunTool::name).collect();
    assert_eq!(
        names,
        vec![
            "fabro_run_create",
            "fabro_run_search",
            "fabro_run_get",
            "fabro_run_interact",
            "fabro_run_gather",
            "fabro_run_pair",
            "fabro_run_events",
        ]
    );
    for tool in RunTool::all() {
        assert_eq!(RunTool::from_name(tool.name()), Some(tool));
        assert!(!tool.description().is_empty());
    }
    assert_eq!(RunTool::from_name("fabro_run"), None);
    assert_eq!(
        RunTool::Gather.description(),
        "Wait for Fabro runs to reach terminal states, returning current state on timeout."
    );
}
