//! The built-in tools, and the names they can be expressed under.
//!
//! Tool names come from two very different places. The built-in tools are a fixed
//! set known at compile time; tools of servers, skills and runs are open-ended and
//! named by whatever registered them. This module covers the first group.
//!
//! A [`NativeTool`] is an identity, not a name. The same tool is expressed under
//! different names depending on the [`ToolVocabulary`] a profile speaks. Permissions,
//! categories and telemetry resolve any name back to the identity, so behavior never
//! depends on which vocabulary is in play.

use vstd::prelude::*;

use crate::text::same_text;

verus! {

/// A naming scheme for built-in tools.
#[derive(Debug, Clone, Copy, PartialEq, Eq, Hash, Structural)]
pub enum ToolVocabulary {
    /// The platform's own names, and the canonical identity used internally.
    Fabro,
    /// The names Kimi Code exposes, for models trained against that harness.
    KimiCode,
}

impl Default for ToolVocabulary {
    fn default() -> (r: Self)
        ensures
            r == ToolVocabulary::Fabro,
    {
        ToolVocabulary::Fabro
    }
}

impl ToolVocabulary {
    /// Every vocabulary.
    pub fn variants() -> (r: Vec<ToolVocabulary>)
        ensures
            r@ == seq![ToolVocabulary::Fabro, ToolVocabulary::KimiCode],
    {
        let r = vec![ToolVocabulary::Fabro, ToolVocabulary::KimiCode];
        proof {
            assert(r@ =~= seq![ToolVocabulary::Fabro, ToolVocabulary::KimiCode]);
        }
        r
    }
}

/// Coarse access category of a tool.
#[derive(Debug, Clone, Copy, PartialEq, Eq, Hash, Structural)]
pub enum AgentToolCategory {
    Read,
    Write,
    Shell,
    Subagent,
}

/// A built-in tool.
#[derive(Debug, Clone, Copy, PartialEq, Eq, Hash, Structural)]
pub enum NativeTool {
    ReadFile,
    ReadManyFiles,
    WriteFile,
    EditFile,
    ApplyPatch,
    ListDir,
    Grep,
    Glob,
    Shell,
    WebSearch,
    WebFetch,
    SpawnAgent,
    SendInput,
    Wait,
    CloseAgent,
    UseSkill,
    UpdatePlan,
    TaskCreate,
    TaskUpdate,
    TaskGet,
    TaskList,
    AskUserQuestion,
    RequestUserInput,
}

impl NativeTool {
    /// The canonical name.
    pub open spec fn canonical(self) -> Seq<char> {
        match self {
            NativeTool::ReadFile => "read_file"@,
            NativeTool::ReadManyFiles => "read_many_files"@,
            NativeTool::WriteFile => "write_file"@,
            NativeTool::EditFile => "edit_file"@,
            NativeTool::ApplyPatch => "apply_patch"@,
            NativeTool::ListDir => "list_dir"@,
            NativeTool::Grep => "grep"@,
            NativeTool::Glob => "glob"@,
            NativeTool::Shell => "shell"@,
            NativeTool::WebSearch => "web_search"@,
            NativeTool::WebFetch => "web_fetch"@,
            NativeTool::SpawnAgent => "spawn_agent"@,
            NativeTool::SendInput => "send_input"@,
            NativeTool::Wait => "wait"@,
            NativeTool::CloseAgent => "close_agent"@,
            NativeTool::UseSkill => "use_skill"@,
            NativeTool::UpdatePlan => "update_plan"@,
            NativeTool::TaskCreate => "TaskCreate"@,
            NativeTool::TaskUpdate => "TaskUpdate"@,
            NativeTool::TaskGet => "TaskGet"@,
            NativeTool::TaskList => "TaskList"@,
            NativeTool::AskUserQuestion => "AskUserQuestion"@,
            NativeTool::RequestUserInput => "request_user_input"@,
        }
    }

    /// The name in a vocabulary. A tool without a counterpart in it keeps its
    /// canonical name.
    pub open spec fn named(self, vocabulary: ToolVocabulary) -> Seq<char> {
        match vocabulary {
            ToolVocabulary::Fabro => self.canonical(),
            ToolVocabulary::KimiCode => match self {
                NativeTool::ReadFile => "Read"@,
                NativeTool::WriteFile => "Write"@,
                NativeTool::EditFile => "Edit"@,
                NativeTool::Grep => "Grep"@,
                NativeTool::Glob => "Glob"@,
                NativeTool::Shell => "Bash"@,
                NativeTool::WebSearch => "WebSearch"@,
                NativeTool::WebFetch => "FetchURL"@,
                NativeTool::UseSkill => "Skill"@,
                other => other.canonical(),
            },
        }
    }

    /// Whether some vocabulary has the tool under `name`.
    pub open spec fn goes_by(self, name: Seq<char>) -> bool {
        self.named(ToolVocabulary::Fabro) == name || self.named(ToolVocabulary::KimiCode) == name
    }

    /// The access category, where the tool is part of the permission taxonomy.
    pub open spec fn access(self) -> Option<AgentToolCategory> {
        match self {
            NativeTool::ReadFile => Some(AgentToolCategory::Read),
            NativeTool::ReadManyFiles => Some(AgentToolCategory::Read),
            NativeTool::WriteFile => Some(AgentToolCategory::Write),
            NativeTool::EditFile => Some(AgentToolCategory::Write),
            NativeTool::ApplyPatch => Some(AgentToolCategory::Write),
            NativeTool::ListDir => Some(AgentToolCategory::Read),
            NativeTool::Grep => Some(AgentToolCategory::Read),
            NativeTool::Glob => Some(AgentToolCategory::Read),
            NativeTool::Shell => Some(AgentToolCategory::Shell),
            NativeTool::WebSearch => None,
            NativeTool::WebFetch => None,
            NativeTool::SpawnAgent => Some(AgentToolCategory::Subagent),
            NativeTool::SendInput => Some(AgentToolCategory::Subagent),
            NativeTool::Wait => Some(AgentToolCategory::Subagent),
            NativeTool::CloseAgent => Some(AgentToolCategory::Subagent),
            NativeTool::UseSkill => None,
            NativeTool::UpdatePlan => None,
            NativeTool::TaskCreate => None,
            NativeTool::TaskUpdate => None,
            NativeTool::TaskGet => None,
            NativeTool::TaskList => None,
            NativeTool::AskUserQuestion => None,
            NativeTool::RequestUserInput => None,
        }
    }

    /// Every built-in tool.
    pub open spec fn all() -> Seq<NativeTool> {
        seq![
            NativeTool::ReadFile,
            NativeTool::ReadManyFiles,
            NativeTool::WriteFile,
            NativeTool::EditFile,
            NativeTool::ApplyPatch,
            NativeTool::ListDir,
            NativeTool::Grep,
            NativeTool::Glob,
            NativeTool::Shell,
            NativeTool::WebSearch,
            NativeTool::WebFetch,
            NativeTool::SpawnAgent,
            NativeTool::SendInput,
            NativeTool::Wait,
            NativeTool::CloseAgent,
            NativeTool::UseSkill,
            NativeTool::UpdatePlan,
            NativeTool::TaskCreate,
            NativeTool::TaskUpdate,
            NativeTool::TaskGet,
            NativeTool::TaskList,
            NativeTool::AskUserQuestion,
            NativeTool::RequestUserInput,
        ]
    }

    /// Every built-in tool.
    pub fn variants() -> (r: Vec<NativeTool>)
        ensures
            r@ == NativeTool::all(),
    {
        let r = vec![
            NativeTool::ReadFile,
            NativeTool::ReadManyFiles,
            NativeTool::WriteFile,
            NativeTool::EditFile,
            NativeTool::ApplyPatch,
            NativeTool::ListDir,
            NativeTool::Grep,
            NativeTool::Glob,
            NativeTool::Shell,
            NativeTool::WebSearch,
            NativeTool::WebFetch,
            NativeTool::SpawnAgent,
            NativeTool::SendInput,
            NativeTool::Wait,
            NativeTool::CloseAgent,
            NativeTool::UseSkill,
            NativeTool::UpdatePlan,
            NativeTool::TaskCreate,
            NativeTool::TaskUpdate,
            NativeTool::TaskGet,
            NativeTool::TaskList,
            NativeTool::AskUserQuestion,
            NativeTool::RequestUserInput,
        ];
        proof {
            assert(r@ =~= NativeTool::all());
        }
        r
    }

    /// The canonical name: how the platform refers to this tool internally.
    pub fn canonical_name(self) -> (r: &'static str)
        ensures
            r@ == self.canonical(),
    {
        match self {
            NativeTool::ReadFile => "read_file",
            NativeTool::ReadManyFiles => "read_many_files",
            NativeTool::WriteFile => "write_file",
            NativeTool::EditFile => "edit_file",
            NativeTool::ApplyPatch => "apply_patch",
            NativeTool::ListDir => "list_dir",
            NativeTool::Grep => "grep",
            NativeTool::Glob => "glob",
            NativeTool::Shell => "shell",
            NativeTool::WebSearch => "web_search",
            NativeTool::WebFetch => "web_fetch",
            NativeTool::SpawnAgent => "spawn_agent",
            NativeTool::SendInput => "send_input",
            NativeTool::Wait => "wait",
            NativeTool::CloseAgent => "close_agent",
            NativeTool::UseSkill => "use_skill",
            NativeTool::UpdatePlan => "update_plan",
            NativeTool::TaskCreate => "TaskCreate",
            NativeTool::TaskUpdate => "TaskUpdate",
            NativeTool::TaskGet => "TaskGet",
            NativeTool::TaskList => "TaskList",
            NativeTool::AskUserQuestion => "AskUserQuestion",
            NativeTool::RequestUserInput => "request_user_input",
        }
    }

    /// The name this tool is exposed under in `vocabulary`.
    pub fn name(self, vocabulary: ToolVocabulary) -> (r: &'static str)
        ensures
            r@ == self.named(vocabulary),
    {
        match vocabulary {
            ToolVocabulary::Fabro => self.canonical_name(),
            ToolVocabulary::KimiCode => match self {
                NativeTool::ReadFile => "Read",
                NativeTool::WriteFile => "Write",
                NativeTool::EditFile => "Edit",
                NativeTool::Grep => "Grep",
                NativeTool::Glob => "Glob",
                NativeTool::Shell => "Bash",
                NativeTool::WebSearch => "WebSearch",
                NativeTool::WebFetch => "FetchURL",
                NativeTool::UseSkill => "Skill",
                other => other.canonical_name(),
            },
        }
    }

    /// Resolves a name in any known vocabulary back to the tool it identifies. A name
    /// that no built-in tool goes by resolves to nothing.
    pub fn from_any_name(name: &str) -> (r: Option<NativeTool>)
        ensures
            forall|tool: NativeTool| r == Some(tool) <==> #[trigger] tool.goes_by(name@),
    {
        let tools = NativeTool::variants();
        let mut i: usize = 0;
        while i < tools.len()
            invariant
                i <= tools@.len(),
                tools@ == NativeTool::all(),
                forall|j: int| 0 <= j < i ==> !(#[trigger] tools@[j]).goes_by(name@),
            decreases tools@.len() - i,
        {
            let tool = tools[i];
            if same_text(tool.name(ToolVocabulary::Fabro), name) || same_text(
                tool.name(ToolVocabulary::KimiCode),
                name,
            ) {
                proof {
                    assert forall|other: NativeTool| #[trigger] other.goes_by(name@) implies other
                        == tool by {
                        names_identify_their_tool(tool, other, name@);
                    }
                }
                return Some(tool);
            }
            i += 1;
        }
        proof {
            assert forall|tool: NativeTool| !#[trigger] tool.goes_by(name@) by {
                assert(tools@[tool.place()] == tool);
            }
        }
        None
    }

    /// Resolves a canonical name to its tool.
    pub fn from_canonical_name(name: &str) -> (r: Option<NativeTool>)
        ensures
            forall|tool: NativeTool| r == Some(tool) <==> #[trigger] tool.canonical() == name@,
    {
        match NativeTool::from_any_name(name) {
            Some(tool) => {
                proof {
                    assert(tool.goes_by(name@));
                    assert forall|other: NativeTool| #[trigger]
                        other.canonical() == name@ implies other == tool by {
                        assert(other.goes_by(name@));
                    }
                }
                if same_text(tool.canonical_name(), name) {
                    Some(tool)
                } else {
                    None
                }
            },
            None => {
                proof {
                    assert forall|other: NativeTool| #[trigger] other.canonical() != name@ by {
                        assert(!other.goes_by(name@));
                    }
                }
                None
            },
        }
    }

    /// The place of the tool among all of them.
    pub open spec fn place(self) -> int {
        match self {
            NativeTool::ReadFile => 0,
            NativeTool::ReadManyFiles => 1,
            NativeTool::WriteFile => 2,
            NativeTool::EditFile => 3,
            NativeTool::ApplyPatch => 4,
            NativeTool::ListDir => 5,
            NativeTool::Grep => 6,
            NativeTool::Glob => 7,
            NativeTool::Shell => 8,
            NativeTool::WebSearch => 9,
            NativeTool::WebFetch => 10,
            NativeTool::SpawnAgent => 11,
            NativeTool::SendInput => 12,
            NativeTool::Wait => 13,
            NativeTool::CloseAgent => 14,
            NativeTool::UseSkill => 15,
            NativeTool::UpdatePlan => 16,
            NativeTool::TaskCreate => 17,
            NativeTool::TaskUpdate => 18,
            NativeTool::TaskGet => 19,
            NativeTool::TaskList => 20,
            NativeTool::AskUserQuestion => 21,
            NativeTool::RequestUserInput => 22,
        }
    }

    /// Coarse access category, or nothing where the tool is not part of the permission
    /// taxonomy.
    pub fn category(self) -> (r: Option<AgentToolCategory>)
        ensures
            r == self.access(),
    {
        match self {
            NativeTool::ReadFile => Some(AgentToolCategory::Read),
            NativeTool::ReadManyFiles => Some(AgentToolCategory::Read),
            NativeTool::WriteFile => Some(AgentToolCategory::Write),
            NativeTool::EditFile => Some(AgentToolCategory::Write),
            NativeTool::ApplyPatch => Some(AgentToolCategory::Write),
            NativeTool::ListDir => Some(AgentToolCategory::Read),
            NativeTool::Grep => Some(AgentToolCategory::Read),
            NativeTool::Glob => Some(AgentToolCategory::Read),
            NativeTool::Shell => Some(AgentToolCategory::Shell),
            NativeTool::WebSearch => None,
            NativeTool::WebFetch => None,
            NativeTool::SpawnAgent => Some(AgentToolCategory::Subagent),
            NativeTool::SendInput => Some(AgentToolCategory::Subagent),
            NativeTool::Wait => Some(AgentToolCategory::Subagent),
            NativeTool::CloseAgent => Some(AgentToolCategory::Subagent),
            NativeTool::UseSkill => None,
            NativeTool::UpdatePlan => None,
            NativeTool::TaskCreate => None,
            NativeTool::TaskUpdate => None,
            NativeTool::TaskGet => None,
            NativeTool::TaskList => None,
            NativeTool::AskUserQuestion => None,
            NativeTool::RequestUserInput => None,
        }
    }
}

/// The error for a text that is no canonical tool name.
#[derive(Debug, Clone, Copy, PartialEq, Eq, Structural)]
pub struct UnknownTool;

impl std::str::FromStr for NativeTool {
    type Err = UnknownTool;

    fn from_str(name: &str) -> (r: Result<NativeTool, UnknownTool>)
        ensures
            forall|tool: NativeTool|
                r == Ok::<NativeTool, UnknownTool>(tool) <==> #[trigger] tool.canonical() == name@,
    {
        match NativeTool::from_canonical_name(name) {
            Some(tool) => Ok(tool),
            None => Err(UnknownTool),
        }
    }
}

/// A number that tells the names of the tools apart: it is made of the length of a
/// name and three of its characters.
spec fn fingerprint(name: Seq<char>) -> int {
    name.len() + 100 * (name[0] as int) + 100_000 * (name[1] as int) + 100_000_000 * (if name.len()
        > 4 {
        name[4] as int
    } else {
        0
    })
}

/// The fingerprint of the canonical name of a tool.
spec fn canonical_print(tool: NativeTool) -> int {
    match tool {
        NativeTool::ReadFile => 9510111409,
        NativeTool::ReadManyFiles => 9510111415,
        NativeTool::WriteFile => 10111411910,
        NativeTool::EditFile => 9510010109,
        NativeTool::ApplyPatch => 12111209711,
        NativeTool::ListDir => 9510510808,
        NativeTool::Grep => 11410304,
        NativeTool::Glob => 10810304,
        NativeTool::Shell => 10810411505,
        NativeTool::WebSearch => 11510111910,
        NativeTool::WebFetch => 10210111909,
        NativeTool::SpawnAgent => 11011211511,
        NativeTool::SendInput => 9510111510,
        NativeTool::Wait => 9711904,
        NativeTool::CloseAgent => 10110809911,
        NativeTool::UseSkill => 11511511709,
        NativeTool::UpdatePlan => 11611211711,
        NativeTool::TaskCreate => 6709708410,
        NativeTool::TaskUpdate => 8509708410,
        NativeTool::TaskGet => 7109708407,
        NativeTool::TaskList => 7609708408,
        NativeTool::AskUserQuestion => 11511506515,
        NativeTool::RequestUserInput => 10110111418,
    }
}

/// The fingerprint of the name of a tool in Kimi Code's vocabulary.
spec fn kimi_print(tool: NativeTool) -> int {
    match tool {
        NativeTool::ReadFile => 10108204,
        NativeTool::WriteFile => 10111408705,
        NativeTool::EditFile => 10006904,
        NativeTool::Grep => 11407104,
        NativeTool::Glob => 10807104,
        NativeTool::Shell => 9706604,
        NativeTool::WebSearch => 10110108709,
        NativeTool::WebFetch => 10410107008,
        NativeTool::UseSkill => 10810708305,
        other => canonical_print(other),
    }
}

proof fn lemma_canonical_print(tool: NativeTool)
    ensures
        fingerprint(tool.canonical()) == canonical_print(tool),
{
    reveal_strlit("read_file");
    reveal_strlit("read_many_files");
    reveal_strlit("write_file");
    reveal_strlit("edit_file");
    reveal_strlit("apply_patch");
    reveal_strlit("list_dir");
    reveal_strlit("grep");
    reveal_strlit("glob");
    reveal_strlit("shell");
    reveal_strlit("web_search");
    reveal_strlit("web_fetch");
    reveal_strlit("spawn_agent");
    reveal_strlit("send_input");
    reveal_strlit("wait");
    reveal_strlit("close_agent");
    reveal_strlit("use_skill");
    reveal_strlit("update_plan");
    reveal_strlit("TaskCreate");
    reveal_strlit("TaskUpdate");
    reveal_strlit("TaskGet");
    reveal_strlit("TaskList");
    reveal_strlit("AskUserQuestion");
    reveal_strlit("request_user_input");
}

proof fn lemma_kimi_print(tool: NativeTool)
    ensures
        fingerprint(tool.named(ToolVocabulary::KimiCode)) == kimi_print(tool),
{
    lemma_canonical_print(tool);
    reveal_strlit("Read");
    reveal_strlit("Write");
    reveal_strlit("Edit");
    reveal_strlit("Grep");
    reveal_strlit("Glob");
    reveal_strlit("Bash");
    reveal_strlit("WebSearch");
    reveal_strlit("FetchURL");
    reveal_strlit("Skill");
}

/// No two tools go by the same name, in whatever vocabularies.
pub proof fn names_identify_their_tool(a: NativeTool, b: NativeTool, name: Seq<char>)
    requires
        a.goes_by(name),
        b.goes_by(name),
    ensures
        a == b,
{
    lemma_canonical_print(a);
    lemma_kimi_print(a);
    lemma_canonical_print(b);
    lemma_kimi_print(b);
}

/// The category of a tool does not depend on the vocabulary it was named in: what a
/// name resolves to has the category of the tool that was named.
pub proof fn categories_are_vocabulary_independent(
    tool: NativeTool,
    vocabulary: ToolVocabulary,
    resolved: NativeTool,
)
    requires
        resolved.goes_by(tool.named(vocabulary)),
    ensures
        resolved == tool,
        resolved.access() == tool.access(),
{
    names_identify_their_tool(tool, resolved, tool.named(vocabulary));
}

/// Whatever vocabulary a tool is named in, its name leads back to it, and its canonical
/// name does so too; a name that only Kimi Code has is not canonical.
pub proof fn names_lead_back_to_their_tool(
    tool: NativeTool,
    vocabulary: ToolVocabulary,
    name: &'static str,
    canonical: &'static str,
    from_name: Option<NativeTool>,
    from_canonical: Option<NativeTool>,
    from_foreign: Option<NativeTool>,
)
    requires
        call_ensures(NativeTool::name, (tool, vocabulary), name),
        call_ensures(NativeTool::canonical_name, (tool,), canonical),
        call_ensures(NativeTool::from_any_name, (name,), from_name),
        call_ensures(NativeTool::from_canonical_name, (canonical,), from_canonical),
        call_ensures(NativeTool::from_canonical_name, (name,), from_foreign),
    ensures
        from_name == Some(tool),
        from_canonical == Some(tool),
        vocabulary == ToolVocabulary::Fabro ==> name@ == canonical@,
        name@ != canonical@ ==> from_foreign is None,
{
    assert(tool.goes_by(name@));
    assert(tool.canonical() == canonical@);
    if let Some(other) = from_foreign {
        assert(other.canonical() == name@);
        assert(other.goes_by(name@));
        names_identify_their_tool(tool, other, name@);
    }
}

/// Kimi Code has names of its own for nine tools, and every other tool keeps its canonical
/// name there.
pub proof fn kimi_code_renames_nine_tools(tool: NativeTool, name: &'static str, own: &'static str)
    requires
        call_ensures(NativeTool::name, (tool, ToolVocabulary::KimiCode), name),
        call_ensures(NativeTool::canonical_name, (tool,), own),
    ensures
        tool == NativeTool::ReadFile ==> name@ == "Read"@,
        tool == NativeTool::WriteFile ==> name@ == "Write"@,
        tool == NativeTool::EditFile ==> name@ == "Edit"@,
        tool == NativeTool::Grep ==> name@ == "Grep"@,
        tool == NativeTool::Glob ==> name@ == "Glob"@,
        tool == NativeTool::Shell ==> name@ == "Bash"@,
        tool == NativeTool::WebSearch ==> name@ == "WebSearch"@,
        tool == NativeTool::WebFetch ==> name@ == "FetchURL"@,
        tool == NativeTool::UseSkill ==> name@ == "Skill"@,
        name@ != own@ ==> (tool == NativeTool::ReadFile || tool == NativeTool::WriteFile || tool
            == NativeTool::EditFile || tool == NativeTool::Grep || tool == NativeTool::Glob || tool
            == NativeTool::Shell || tool == NativeTool::WebSearch || tool == NativeTool::WebFetch
            || tool == NativeTool::UseSkill),
{
}

/// Five tools read, three write, one runs commands and four drive other agents; the others
/// are outside the permissions.
pub proof fn tools_are_categorized_by_what_they_touch(
    tool: NativeTool,
    r: Option<AgentToolCategory>,
)
    requires
        call_ensures(NativeTool::category, (tool,), r),
    ensures
        r == Some(AgentToolCategory::Read) <==> (tool == NativeTool::ReadFile || tool
            == NativeTool::ReadManyFiles || tool == NativeTool::ListDir || tool == NativeTool::Grep
            || tool == NativeTool::Glob),
        r == Some(AgentToolCategory::Write) <==> (tool == NativeTool::WriteFile || tool
            == NativeTool::EditFile || tool == NativeTool::ApplyPatch),
        r == Some(AgentToolCategory::Shell) <==> tool == NativeTool::Shell,
        r == Some(AgentToolCategory::Subagent) <==> (tool == NativeTool::SpawnAgent || tool
            == NativeTool::SendInput || tool == NativeTool::Wait || tool == NativeTool::CloseAgent),
{
}

/// Every tool is listed, and none of them twice.
pub proof fn every_tool_is_listed_once(tool: NativeTool, r: Vec<NativeTool>, i: int, j: int)
    requires
        call_ensures(NativeTool::variants, (), r),
    ensures
        r@.contains(tool),
        0 <= i < j < r@.len() ==> r@[i] != r@[j],
{
    assert(r@[tool.place()] == tool);
    assert forall|k: int| 0 <= k < r@.len() implies (#[trigger] r@[k]).place() == k by {}
}

} // verus!
