use std::sync::Arc;

use fabro::json::Json;
use fabro::kimi::{KimiProfile, ToolRegistry};
use fabro::native_tool::{AgentToolCategory, NativeTool, ToolVocabulary};
use fabro::profiles::{AgentProfileKind, NativeToolOptions, ToolSecrets};
use fabro::tool_schema::ToolDefinition;

fn tool(name: &str) -> ToolDefinition {
    ToolDefinition {
        name: name.to_string(),
        description: format!("the shared {name}"),
        parameters: Json::Null,
    }
}

fn options() -> NativeToolOptions {
    NativeToolOptions {
        default_command_timeout_ms: 120_000,
        max_command_timeout_ms: 600_000,
        secrets: ToolSecrets {
            brave_search_api_key: None,
        },
    }
}

/// The profile over the core tools of the platform.
fn profile() -> KimiProfile<String> {
    let core = ["read_file", "write_file", "shell", "grep", "glob", "web_fetch"];
    KimiProfile::new(
        "kimi-k3".to_string(),
        options(),
        core.iter().map(|name| tool(name)).collect(),
        tool("edit_file"),
        tool("TodoList"),
    )
}

#[test]
fn renamed_tools_keep_their_permission_category() {
    let expected = |name: &str| match name {
        "Read" | "Grep" | "Glob" => Some(AgentToolCategory::Read),
        "Write" | "Edit" => Some(AgentToolCategory::Write),
        "Bash" => Some(AgentToolCategory::Shell),
        "FetchURL" => None,
        other => panic!("unexpected tool {other}"),
    };
    let category = |name: &str| NativeTool::from_any_name(name).and_then(|t| t.category());
    let profile = profile();
    let mut checked = 0;
    for name in profile.tool_registry().names() {
        let Some(tool) = NativeTool::from_any_name(&name) else {
            continue;
        };
        assert_eq!(
            category(&name),
            expected(&name),
            "exposed name '{name}' must categorize as its canonical identity"
        );
        assert_eq!(tool.category(), expected(&name));
        assert_eq!(name, tool.name(ToolVocabulary::KimiCode));
        checked += 1;
    }
    assert_eq!(checked, 7);
    // Reads stay reads, not Shell.
    assert_eq!(category("Read"), Some(AgentToolCategory::Read));
    assert_eq!(category("Bash"), Some(AgentToolCategory::Shell));
}

#[test]
fn tools_are_exposed_under_kimi_code_names() {
    let profile = profile();
    let names = profile.tool_registry().names();
    for expected in ["Read", "Write", "Edit", "Bash", "Grep", "Glob", "FetchURL"] {
        assert!(names.contains(&expected.to_string()), "missing {expected}");
    }
    for canonical in [
        "read_file",
        "write_file",
        "edit_file",
        "shell",
        "grep",
        "glob",
    ] {
        assert!(
            !names.contains(&canonical.to_string()),
            "{canonical} should have been renamed"
        );
    }
    assert!(names.contains(&"TodoList".to_string()));
}

#[test]
fn post_construction_tools_also_use_kimi_names() {
    let mut profile = profile();
    profile.tool_registry_mut().register(tool("spawn_agent"));
    profile.tool_registry_mut().register(tool("use_skill"));

    let names = profile.tool_registry().names();
    assert!(names.contains(&"Skill".to_string()), "got {names:?}");
    assert!(!names.contains(&"use_skill".to_string()), "got {names:?}");
    // Deliberately not renamed to Kimi Code's `Agent`.
    assert!(names.contains(&"spawn_agent".to_string()), "got {names:?}");
}

#[test]
fn edit_and_write_descriptions_drill_read_before_write() {
    let profile = profile();
    let describe = |name: &str| {
        profile
            .tool_registry()
            .get(name)
            .unwrap_or_else(|| panic!("{name} should be registered"))
            .description
            .clone()
    };

    for name in ["Edit", "Write"] {
        let text = describe(name);
        assert!(
            text.contains("have not been read") || text.contains("has not been read"),
            "{name} should warn about the read-before-write guard"
        );
    }
    assert!(describe("Edit").contains("never reconstruct it from memory"));

    let bash = describe("Bash");
    for expected in ["→ Read", "→ Edit", "→ Write", "→ Glob", "→ Grep"] {
        assert!(bash.contains(expected), "Bash should map {expected}");
    }
    let options = options();
    let seconds = (options.default_command_timeout_ms / 1000).to_string();
    assert!(
        bash.contains(&seconds),
        "Bash should quote {seconds}s: {bash}"
    );
    assert!(
        !bash.contains(&options.default_command_timeout_ms.to_string()),
        "Bash quotes milliseconds, so the unit conversion is wrong: {bash}"
    );
    assert!(bash.contains("SECONDS"), "{bash}");
    assert!(!bash.contains("run_in_background"), "{bash}");

    assert!(describe("Read").contains("refuse a file that has not been read"));
    let grep = describe("Grep");
    assert!(grep.contains("POSIX"), "{grep}");
    assert!(describe("Glob").contains("most recently modified"));
    assert!(!describe("Read").contains("refuses writes"));
}

#[test]
fn kimi_profiles_have_their_own_identity() {
    let profile = profile();
    assert_eq!(profile.provider_id(), "kimi");
    let profile = profile.with_provider_id("openrouter".to_string());
    assert_eq!(profile.profile_kind(), AgentProfileKind::Kimi);
    assert_eq!(profile.provider_id(), "openrouter");
    assert_eq!(profile.model(), "kimi-k3");
    assert_eq!(profile.tool_registry().vocabulary(), ToolVocabulary::KimiCode);
    assert_eq!(profile.catalog(), None);
    let profile = profile.with_catalog(Arc::new("builtin".to_string()));
    assert_eq!(profile.catalog().map(String::as_str), Some("builtin"));
    assert_eq!(profile.provider_id(), "openrouter");
    assert_eq!(profile.base.model, "kimi-k3");
}

#[test]
fn profiles_with_the_same_options_are_the_same() {
    let core = || vec![tool("grep"), tool("custom")];
    let new: KimiProfile<()> = KimiProfile::new(
        "kimi-k3".to_string(),
        options(),
        core(),
        tool("edit_file"),
        tool("TodoList"),
    );
    let native = KimiProfile::with_native_tools(
        "kimi-k3".to_string(),
        &options(),
        core(),
        tool("edit_file"),
        tool("TodoList"),
    );
    assert_eq!(new, native);
}

#[test]
fn no_tool_is_exposed_twice() {
    let mut profile = profile();
    profile.tool_registry_mut().register(tool("read_file"));
    profile.tool_registry_mut().register(tool("Read"));
    let mut names = profile.tool_registry().names();
    let count = names.len();
    names.sort();
    names.dedup();
    assert_eq!(names.len(), count);
}

#[test]
fn registries_replace_what_has_the_same_name() {
    let mut registry = ToolRegistry::with_vocabulary(ToolVocabulary::Fabro);
    registry.register(tool("Read"));
    assert_eq!(registry.names(), vec!["read_file".to_string()]);
    registry.register(ToolDefinition {
        name: "read_file".to_string(),
        description: "another".to_string(),
        parameters: Json::Null,
    });
    registry.register(tool("custom"));
    assert_eq!(
        registry.names(),
        vec!["read_file".to_string(), "custom".to_string()]
    );
    assert_eq!(registry.get("read_file").unwrap().description, "another");
    registry.redescribe(NativeTool::ReadFile, "redescribed");
    registry.redescribe(NativeTool::Glob, "not there");
    assert_eq!(registry.get("read_file").unwrap().description, "redescribed");
    assert!(registry.get("glob").is_none());
}

#[test]
fn kimi_contracts_replace_the_core_tools() {
    let profile = profile();
    let registry = profile.tool_registry();
    for name in ["Read", "Write", "Bash"] {
        let shared = format!("the shared {name}");
        let definition = registry.get(name).unwrap();
        assert_ne!(definition.description, shared);
        assert_ne!(definition.parameters, Json::Null, "{name}");
    }
    let edit = registry.get("Edit").unwrap();
    assert!(edit.description.starts_with("Edit a file by replacing an exact string."));
    assert_eq!(edit.parameters, Json::Null);
}
