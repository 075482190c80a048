use std::str::FromStr;

use fabro::native_tool::{AgentToolCategory, NativeTool, ToolVocabulary};

#[test]
fn canonical_names_round_trip() {
    for tool in NativeTool::variants() {
        assert_eq!(NativeTool::from_str(tool.canonical_name()).unwrap(), tool);
    }
}

#[test]
fn every_name_in_every_vocabulary_resolves_back_to_its_tool() {
    for tool in NativeTool::variants() {
        for vocabulary in ToolVocabulary::variants() {
            let name = tool.name(vocabulary);
            assert_eq!(
                NativeTool::from_any_name(name),
                Some(tool),
                "{name} ({vocabulary:?}) should resolve back to {tool:?}"
            );
        }
    }
}

#[test]
fn vocabularies_do_not_collide() {
    let mut seen: Vec<(&str, NativeTool)> = Vec::new();
    for tool in NativeTool::variants() {
        for vocabulary in ToolVocabulary::variants() {
            let name = tool.name(vocabulary);
            if let Some((_, other)) = seen.iter().find(|(seen, _)| *seen == name) {
                assert_eq!(*other, tool, "name '{name}' is claimed by two tools");
            } else {
                seen.push((name, tool));
            }
        }
    }
}

#[test]
fn kimi_vocabulary_renames_only_where_kimi_code_differs() {
    assert_eq!(NativeTool::ReadFile.name(ToolVocabulary::KimiCode), "Read");
    assert_eq!(NativeTool::Shell.name(ToolVocabulary::KimiCode), "Bash");
    assert_eq!(
        NativeTool::WebFetch.name(ToolVocabulary::KimiCode),
        "FetchURL"
    );
    assert_eq!(
        NativeTool::TaskCreate.name(ToolVocabulary::KimiCode),
        "TaskCreate"
    );
    assert_eq!(
        NativeTool::SpawnAgent.name(ToolVocabulary::KimiCode),
        "spawn_agent"
    );
}

#[test]
fn categories_are_vocabulary_independent() {
    for tool in NativeTool::variants() {
        for vocabulary in ToolVocabulary::variants() {
            let resolved = NativeTool::from_any_name(tool.name(vocabulary))
                .expect("known name should resolve");
            assert_eq!(resolved.category(), tool.category());
        }
    }
}

#[test]
fn every_built_in_tool_is_listed_once() {
    let tools = NativeTool::variants();
    assert_eq!(tools.len(), 23);
    for (i, tool) in tools.iter().enumerate() {
        assert!(!tools[..i].contains(tool), "{tool:?} is listed twice");
    }
    assert_eq!(ToolVocabulary::default(), ToolVocabulary::Fabro);
}

#[test]
fn only_canonical_names_parse() {
    assert!(NativeTool::from_str("Read").is_err());
    assert!(NativeTool::from_str("").is_err());
    assert_eq!(NativeTool::from_any_name("Read"), Some(NativeTool::ReadFile));
    assert_eq!(NativeTool::from_any_name("READ"), None);
    assert_eq!(NativeTool::from_any_name("mcp__tool"), None);
}

#[test]
fn tools_are_categorized_by_what_they_touch() {
    assert_eq!(NativeTool::ReadFile.category(), Some(AgentToolCategory::Read));
    assert_eq!(NativeTool::WriteFile.category(), Some(AgentToolCategory::Write));
    assert_eq!(NativeTool::Shell.category(), Some(AgentToolCategory::Shell));
    assert_eq!(NativeTool::SpawnAgent.category(), Some(AgentToolCategory::Subagent));
    assert_eq!(NativeTool::AskUserQuestion.category(), None);
}

#[test]
fn canonical_names_are_told_from_other_names() {
    assert_eq!(
        NativeTool::from_canonical_name("read_file"),
        Some(NativeTool::ReadFile)
    );
    assert_eq!(NativeTool::from_canonical_name("Read"), None);
    assert_eq!(NativeTool::from_canonical_name("custom"), None);
    assert!(NativeTool::from_str("Bash").is_err());
}
