use std::sync::Arc;

use fabro::profiles::{
    assemble_system_prompt, build_env_context_block, build_env_context_block_with,
    AgentProfileBuilder, AgentProfileKind, EmbeddedPrompt, EnvContext, NativeToolOptions,
    PromptInput, SandboxFacts, ToolSecrets,
};

fn linux() -> SandboxFacts {
    SandboxFacts {
        working_directory: "/home/test".into(),
        platform: "linux".into(),
        os_version: "Linux 6.1.0".into(),
    }
}

fn extra_context() -> EnvContext {
    EnvContext {
        git_branch: Some("main".into()),
        is_git_repo: true,
        current_date: "2026-02-20".into(),
        model: "opus-4-6".into(),
        knowledge_cutoff: "May 2025".into(),
        git_status_short: None,
        git_recent_commits: None,
    }
}

#[test]
fn env_context_block_contains_platform() {
    let env = linux();
    let block = build_env_context_block(&env);
    assert!(block.contains("<environment>"));
    assert!(block.contains("</environment>"));
    assert!(block.contains("linux"));
    assert!(block.contains("/home/test"));
    assert!(block.contains("Linux 6.1.0"));
}

#[test]
fn env_context_block_with_extra_context() {
    let env = linux();
    let block = build_env_context_block_with(&env, &extra_context());
    assert!(block.contains("Git branch: main"));
    assert!(block.contains("Is git repository: true"));
    assert!(block.contains("Today's date: 2026-02-20"));
    assert!(block.contains("Model: opus-4-6"));
    assert!(block.contains("Knowledge cutoff: May 2025"));
}

#[test]
fn env_context_blocks_are_laid_out_line_by_line() {
    assert_eq!(
        build_env_context_block(&linux()),
        "<environment>\nWorking directory: /home/test\nIs git repository: false\nPlatform: linux\nOS version: Linux 6.1.0\n</environment>"
    );
    let mut ctx = extra_context();
    ctx.git_status_short = Some(" M a.rs".into());
    ctx.git_recent_commits = Some("abc First".into());
    assert_eq!(
        build_env_context_block_with(&linux(), &ctx),
        "<environment>\nWorking directory: /home/test\nIs git repository: true\nGit branch: main\nPlatform: linux\nOS version: Linux 6.1.0\nToday's date: 2026-02-20\nModel: opus-4-6\nKnowledge cutoff: May 2025\nGit status:\n M a.rs\nRecent commits:\nabc First\n</environment>"
    );
}

#[test]
fn the_environment_block_cannot_be_overridden() {
    let prompt = EmbeddedPrompt::new("name.md.j2", "{{ inputs.env_block }}")
        .with_string("env_block", "mine".into())
        .with_bool("has_web_search", true)
        .with_environment(&linux(), &EnvContext::default());
    assert_eq!(prompt.name, "name.md.j2");
    assert_eq!(prompt.source, "{{ inputs.env_block }}");
    assert_eq!(
        prompt.inputs.get("env_block"),
        Some(&PromptInput::Text(build_env_context_block(&linux())))
    );
    assert_eq!(
        prompt.inputs.get("has_web_search"),
        Some(&PromptInput::Flag(true))
    );
}

#[test]
fn system_prompts_end_with_the_standard_sections() {
    assert_eq!(
        assemble_system_prompt("prompt".into(), &vec![], "", None),
        "prompt"
    );
    assert_eq!(
        assemble_system_prompt(
            "prompt".into(),
            &vec!["one".into(), "two".into()],
            "skills",
            Some("be brief")
        ),
        "prompt\n\none\n\ntwo\n\nskills\n\n# User Instructions\nbe brief"
    );
    assert_eq!(
        assemble_system_prompt("".into(), &vec![], "skills", Some("")),
        "\n\nskills\n\n# User Instructions\n"
    );
}

#[test]
fn builders_hand_on_what_they_were_given() {
    let options = NativeToolOptions {
        default_command_timeout_ms: 10,
        max_command_timeout_ms: 20,
        secrets: ToolSecrets {
            brave_search_api_key: None,
        },
    };
    let builder = AgentProfileBuilder::new(
        AgentProfileKind::Gemini,
        "google".into(),
        "gemini-3".into(),
        Arc::new("builtin catalog"),
        options,
    )
    .with_tool_secrets(ToolSecrets {
        brave_search_api_key: Some("configured-key".into()),
    })
    .with_web_fetch_summarizer(true);
    let parts = builder.build();
    assert_eq!(parts.profile_kind, AgentProfileKind::Gemini);
    assert_eq!(parts.provider_id, "google");
    assert_eq!(parts.model, "gemini-3");
    assert_eq!(
        parts.options.secrets.brave_search_api_key.as_deref(),
        Some("configured-key")
    );
    assert_eq!(parts.options.max_command_timeout_ms, 20);
    assert!(parts.summarize_web_pages);
    assert_eq!(*parts.catalog, "builtin catalog");
    assert!(Arc::ptr_eq(&parts.catalog, &builder.build().catalog));
}
