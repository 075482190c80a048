//! Agent profiles: how they are configured, and the system prompt they speak from.

use std::sync::Arc;

use vstd::prelude::*;
use vstd::string::*;

use crate::kimi::ToolRegistry;
use crate::text::{join, joined, joining_puts_the_separator_between, views};
use crate::text_map::TextMap;

verus! {

// ---- The environment block ----

/// What a sandbox says of itself.
#[derive(Debug, PartialEq, Eq)]
pub struct SandboxFacts {
    pub working_directory: String,
    pub platform: String,
    pub os_version: String,
}

/// Additional context for building environment blocks.
#[derive(Debug, PartialEq, Eq)]
pub struct EnvContext {
    pub git_branch: Option<String>,
    pub is_git_repo: bool,
    pub current_date: String,
    pub model: String,
    pub knowledge_cutoff: String,
    pub git_status_short: Option<String>,
    pub git_recent_commits: Option<String>,
}

/// Nothing is known but what the sandbox says.
pub open spec fn bare(ctx: EnvContext) -> bool {
    &&& ctx.git_branch is None
    &&& !ctx.is_git_repo
    &&& ctx.current_date@.len() == 0
    &&& ctx.model@.len() == 0
    &&& ctx.knowledge_cutoff@.len() == 0
    &&& ctx.git_status_short is None
    &&& ctx.git_recent_commits is None
}

impl Default for EnvContext {
    fn default() -> (r: Self)
        ensures
            bare(r),
    {
        EnvContext {
            git_branch: None,
            is_git_repo: false,
            current_date: String::new(),
            model: String::new(),
            knowledge_cutoff: String::new(),
            git_status_short: None,
            git_recent_commits: None,
        }
    }
}

/// The line for a text, where there is one.
pub open spec fn optional_line(label: Seq<char>, text: Option<String>) -> Seq<Seq<char>> {
    match text {
        Some(t) => seq![label + t@],
        None => Seq::empty(),
    }
}

/// The line for a text, unless it is empty.
pub open spec fn nonempty_line(label: Seq<char>, text: Seq<char>) -> Seq<Seq<char>> {
    if text.len() == 0 {
        Seq::empty()
    } else {
        seq![label + text]
    }
}

/// The word for a truth value.
pub open spec fn truth(b: bool) -> Seq<char> {
    if b {
        "true"@
    } else {
        "false"@
    }
}

/// The lines of the environment block.
pub open spec fn env_lines(env: SandboxFacts, ctx: EnvContext) -> Seq<Seq<char>> {
    seq![
        "<environment>"@,
        "Working directory: "@ + env.working_directory@,
        "Is git repository: "@ + truth(ctx.is_git_repo),
    ] + optional_line("Git branch: "@, ctx.git_branch) + seq![
        "Platform: "@ + env.platform@,
        "OS version: "@ + env.os_version@,
    ] + nonempty_line("Today's date: "@, ctx.current_date@) + nonempty_line(
        "Model: "@,
        ctx.model@,
    ) + nonempty_line("Knowledge cutoff: "@, ctx.knowledge_cutoff@) + optional_line(
        "Git status:\n"@,
        ctx.git_status_short,
    ) + optional_line("Recent commits:\n"@, ctx.git_recent_commits) + seq!["</environment>"@]
}

fn push_line(lines: &mut Vec<String>, label: &str, text: &str)
    ensures
        views(final(lines)@) == views(old(lines)@) + seq![label@ + text@],
{
    let ghost before = lines@;
    let mut line = label.to_owned();
    line.append(text);
    lines.push(line);
    proof {
        assert(views(lines@) =~= views(before) + seq![label@ + text@]);
    }
}

fn push_optional(lines: &mut Vec<String>, label: &str, text: &Option<String>)
    ensures
        views(final(lines)@) == views(old(lines)@) + optional_line(label@, *text),
{
    match text {
        Some(t) => push_line(lines, label, t.as_str()),
        None => {
            proof {
                assert(views(lines@) + Seq::<Seq<char>>::empty() =~= views(lines@));
            }
        },
    }
}

fn push_nonempty(lines: &mut Vec<String>, label: &str, text: &str)
    ensures
        views(final(lines)@) == views(old(lines)@) + nonempty_line(label@, text@),
{
    if text.unicode_len() == 0 {
        proof {
            assert(views(lines@) + Seq::<Seq<char>>::empty() =~= views(lines@));
        }
    } else {
        push_line(lines, label, text);
    }
}

/// The environment block of a system prompt.
pub fn build_env_context_block_with(env: &SandboxFacts, ctx: &EnvContext) -> (r: String)
    ensures
        r@ == joined(env_lines(*env, *ctx), "\n"@),
{
    let mut lines: Vec<String> = Vec::new();
    lines.push("<environment>".to_owned());
    proof {
        assert(views(lines@) =~= seq!["<environment>"@]);
    }
    push_line(&mut lines, "Working directory: ", env.working_directory.as_str());
    push_line(
        &mut lines,
        "Is git repository: ",
        if ctx.is_git_repo {
            "true"
        } else {
            "false"
        },
    );
    push_optional(&mut lines, "Git branch: ", &ctx.git_branch);
    push_line(&mut lines, "Platform: ", env.platform.as_str());
    push_line(&mut lines, "OS version: ", env.os_version.as_str());
    push_nonempty(&mut lines, "Today's date: ", ctx.current_date.as_str());
    push_nonempty(&mut lines, "Model: ", ctx.model.as_str());
    push_nonempty(&mut lines, "Knowledge cutoff: ", ctx.knowledge_cutoff.as_str());
    push_optional(&mut lines, "Git status:\n", &ctx.git_status_short);
    push_optional(&mut lines, "Recent commits:\n", &ctx.git_recent_commits);
    let ghost before = lines@;
    lines.push("</environment>".to_owned());
    proof {
        assert(views(lines@) =~= views(before) + seq!["</environment>"@]);
        assert(views(lines@) =~= env_lines(*env, *ctx));
    }
    join(&lines, "\n")
}

/// The environment block where nothing is known but what the sandbox says.
pub fn build_env_context_block(env: &SandboxFacts) -> (r: String)
    ensures
        exists|ctx: EnvContext| #[trigger] bare(ctx) && r@ == joined(env_lines(*env, ctx), "\n"@),
        r@ == joined(
            seq![
                "<environment>"@,
                "Working directory: "@ + env.working_directory@,
                "Is git repository: false"@,
                "Platform: "@ + env.platform@,
                "OS version: "@ + env.os_version@,
                "</environment>"@,
            ],
            "\n"@,
        ),
{
    let ctx = EnvContext::default();
    let r = build_env_context_block_with(env, &ctx);
    proof {
        reveal_strlit("Is git repository: false");
        reveal_strlit("Is git repository: ");
        reveal_strlit("false");
        assert("Is git repository: "@ + "false"@ =~= "Is git repository: false"@);
        assert(env_lines(*env, ctx) =~= seq![
            "<environment>"@,
            "Working directory: "@ + env.working_directory@,
            "Is git repository: false"@,
            "Platform: "@ + env.platform@,
            "OS version: "@ + env.os_version@,
            "</environment>"@,
        ]);
    }
    r
}

// ---- The system prompt ----

/// An input of a prompt template.
#[derive(Debug, PartialEq, Eq)]
pub enum PromptInput {
    Text(String),
    Flag(bool),
}

/// A prompt template and its inputs. The environment block is put in last and cannot
/// be overridden.
#[derive(Debug, PartialEq, Eq)]
pub struct EmbeddedPrompt {
    pub name: String,
    pub source: String,
    pub inputs: TextMap<PromptInput>,
}

impl EmbeddedPrompt {
    /// A template without inputs.
    pub fn new(name: &str, source: &str) -> (r: Self)
        ensures
            r.name@ == name@,
            r.source@ == source@,
            r.inputs@ == Map::<Seq<char>, PromptInput>::empty(),
    {
        EmbeddedPrompt {
            name: name.to_owned(),
            source: source.to_owned(),
            inputs: TextMap::new(),
        }
    }

    /// The template with a text as an input.
    pub fn with_string(self, name: &str, value: String) -> (r: Self)
        ensures
            r.name == self.name,
            r.source == self.source,
            r.inputs@ == self.inputs@.insert(name@, PromptInput::Text(value)),
    {
        let mut r = self;
        r.inputs.insert(name.to_owned(), PromptInput::Text(value));
        r
    }

    /// The template with a truth value as an input.
    pub fn with_bool(self, name: &str, value: bool) -> (r: Self)
        ensures
            r.name == self.name,
            r.source == self.source,
            r.inputs@ == self.inputs@.insert(name@, PromptInput::Flag(value)),
    {
        let mut r = self;
        r.inputs.insert(name.to_owned(), PromptInput::Flag(value));
        r
    }

    /// The template with all the inputs it is rendered with: its own, and the
    /// environment block in place of any that has its name.
    pub fn with_environment(self, env: &SandboxFacts, ctx: &EnvContext) -> (r: Self)
        ensures
            r.name == self.name,
            r.source == self.source,
            r.inputs@.dom() == self.inputs@.dom().insert("env_block"@),
            r.inputs@["env_block"@] matches PromptInput::Text(block) && block@ == joined(
                env_lines(*env, *ctx),
                "\n"@,
            ),
            forall|name: Seq<char>|
                name != "env_block"@ && self.inputs@.dom().contains(name) ==> #[trigger] r.inputs@[name]
                    == self.inputs@[name],
    {
        let block = build_env_context_block_with(env, ctx);
        let mut r = self;
        r.inputs.insert("env_block".to_owned(), PromptInput::Text(block));
        r
    }
}

/// The sections that follow a rendered prompt.
pub open spec fn system_prompt(
    prompt: Seq<char>,
    memory: Seq<Seq<char>>,
    skills: Seq<char>,
    user_instructions: Option<Seq<char>>,
) -> Seq<char> {
    prompt + (if memory.len() == 0 {
        Seq::empty()
    } else {
        "\n\n"@ + joined(memory, "\n\n"@)
    }) + (if skills.len() == 0 {
        Seq::empty()
    } else {
        "\n\n"@ + skills
    }) + (match user_instructions {
        Some(instructions) => "\n\n# User Instructions\n"@ + instructions,
        None => Seq::empty(),
    })
}

/// Assembles a system prompt from the rendered template and the standard trailing
/// sections: memory, skills, user instructions.
pub fn assemble_system_prompt(
    prompt: String,
    memory: &Vec<String>,
    skills_section: &str,
    user_instructions: Option<&str>,
) -> (r: String)
    ensures
        r@ == system_prompt(
            prompt@,
            views(memory@),
            skills_section@,
            match user_instructions {
                Some(instructions) => Some(instructions@),
                None => None,
            },
        ),
{
    let mut r = prompt;
    let ghost p = r@;
    if memory.len() > 0 {
        r.append("\n\n");
        r.append(join(memory, "\n\n").as_str());
    }
    let ghost docs: Seq<char> = if views(memory@).len() == 0 {
        Seq::empty()
    } else {
        "\n\n"@ + joined(views(memory@), "\n\n"@)
    };
    proof {
        assert(r@ =~= p + docs);
    }
    if skills_section.unicode_len() > 0 {
        r.append("\n\n");
        r.append(skills_section);
    }
    let ghost skills: Seq<char> = if skills_section@.len() == 0 {
        Seq::empty()
    } else {
        "\n\n"@ + skills_section@
    };
    proof {
        assert(r@ =~= p + docs + skills);
    }
    let ghost so_far = r@;
    match user_instructions {
        Some(instructions) => {
            r.append("\n\n# User Instructions\n");
            r.append(instructions);
            proof {
                assert(r@ =~= so_far + ("\n\n# User Instructions\n"@ + instructions@));
            }
        },
        None => {
            proof {
                assert(r@ =~= so_far + Seq::<char>::empty());
            }
        },
    }
    r
}

// ---- Building profiles ----

/// The kinds of agent profiles.
#[derive(Debug, Clone, Copy, PartialEq, Eq, Structural)]
pub enum AgentProfileKind {
    OpenAi,
    Gemini,
    Anthropic,
    Kimi,
}

/// Secrets that tools need.
#[derive(Debug, PartialEq, Eq)]
pub struct ToolSecrets {
    pub brave_search_api_key: Option<String>,
}

/// Options that the built-in tools of a profile are made with.
#[derive(Debug, PartialEq, Eq)]
pub struct NativeToolOptions {
    pub default_command_timeout_ms: u64,
    pub max_command_timeout_ms: u64,
    pub secrets: ToolSecrets,
}

impl Clone for NativeToolOptions {
    fn clone(&self) -> (r: Self)
        ensures
            r == *self,
    {
        NativeToolOptions {
            default_command_timeout_ms: self.default_command_timeout_ms,
            max_command_timeout_ms: self.max_command_timeout_ms,
            secrets: ToolSecrets {
                brave_search_api_key: match &self.secrets.brave_search_api_key {
                    Some(key) => Some(key.clone()),
                    None => None,
                },
            },
        }
    }
}

/// What every profile has: its kind, the provider and the model it speaks to, the model
/// catalog where it was given one, and its tools.
#[derive(Debug, PartialEq, Eq)]
pub struct BaseProfile<C> {
    pub profile_kind: AgentProfileKind,
    pub provider_id: String,
    pub model: String,
    pub catalog: Option<Arc<C>>,
    pub registry: ToolRegistry,
}

/// Builds a profile and its built-in tools from one configuration. One configured
/// builder can outfit both a root session and every child session it spawns with an
/// identical tool set.
#[derive(Debug, PartialEq, Eq)]
pub struct AgentProfileBuilder<C> {
    pub profile_kind: AgentProfileKind,
    pub provider_id: String,
    pub model: String,
    pub catalog: Arc<C>,
    pub native_tool_options: NativeToolOptions,
    pub summarize_web_pages: bool,
}

/// What a profile is built from.
#[derive(Debug, PartialEq, Eq)]
pub struct ProfileParts<C> {
    pub profile_kind: AgentProfileKind,
    pub provider_id: String,
    pub model: String,
    pub catalog: Arc<C>,
    pub options: NativeToolOptions,
    pub summarize_web_pages: bool,
}

impl<C> AgentProfileBuilder<C> {
    /// A builder with a catalog and the options of the profile, without a summarizer.
    pub fn new(
        profile_kind: AgentProfileKind,
        provider_id: String,
        model: String,
        catalog: Arc<C>,
        options: NativeToolOptions,
    ) -> (r: Self)
        ensures
            r.profile_kind == profile_kind,
            r.provider_id == provider_id,
            r.model == model,
            r.catalog == catalog,
            r.native_tool_options == options,
            !r.summarize_web_pages,
    {
        AgentProfileBuilder {
            profile_kind,
            provider_id,
            model,
            catalog,
            native_tool_options: options,
            summarize_web_pages: false,
        }
    }

    /// The builder with other secrets.
    pub fn with_tool_secrets(self, secrets: ToolSecrets) -> (r: Self)
        ensures
            r == (AgentProfileBuilder {
                native_tool_options: NativeToolOptions { secrets, ..self.native_tool_options },
                ..self
            }),
    {
        let mut r = self;
        r.native_tool_options.secrets = secrets;
        r
    }

    /// The builder with or without a summarizer for web pages.
    pub fn with_web_fetch_summarizer(self, summarize: bool) -> (r: Self)
        ensures
            r == (AgentProfileBuilder { summarize_web_pages: summarize, ..self }),
    {
        let mut r = self;
        r.summarize_web_pages = summarize;
        r
    }

    /// What a profile is built from, the catalog among it. The builder can be used again,
    /// and gives the same each time.
    pub fn build(&self) -> (r: ProfileParts<C>)
        ensures
            r.profile_kind == self.profile_kind,
            r.provider_id == self.provider_id,
            r.model == self.model,
            r.catalog == self.catalog,
            r.options == self.native_tool_options,
            r.summarize_web_pages == self.summarize_web_pages,
    {
        ProfileParts {
            profile_kind: self.profile_kind,
            provider_id: self.provider_id.clone(),
            model: self.model.clone(),
            catalog: Arc::clone(&self.catalog),
            options: self.native_tool_options.clone(),
            summarize_web_pages: self.summarize_web_pages,
        }
    }
}

// ---- What the prompts say ----

/// A line for a text, with the line break before it, where there is one.
pub open spec fn line_of(label: Seq<char>, text: Option<String>) -> Seq<char> {
    match text {
        Some(t) => "\n"@ + label + t@,
        None => Seq::empty(),
    }
}

/// A line for a text, with the line break before it, unless the text is empty.
pub open spec fn line_unless_empty(label: Seq<char>, text: Seq<char>) -> Seq<char> {
    if text.len() > 0 {
        "\n"@ + label + text
    } else {
        Seq::empty()
    }
}

proof fn lemma_one_more(lines: Seq<Seq<char>>, line: Seq<char>)
    requires
        lines.len() > 0,
    ensures
        joined(lines + seq![line], "\n"@) == joined(lines, "\n"@) + ("\n"@ + line),
{
    joining_puts_the_separator_between(lines, seq![line], line, "\n"@);
    assert(joined(lines + seq![line], "\n"@) =~= joined(lines, "\n"@) + ("\n"@ + line));
}

proof fn lemma_perhaps(lines: Seq<Seq<char>>, label: Seq<char>, text: Option<String>)
    requires
        lines.len() > 0,
    ensures
        joined(lines + optional_line(label, text), "\n"@) == joined(lines, "\n"@) + line_of(
            label,
            text,
        ),
{
    match text {
        Some(t) => {
            lemma_one_more(lines, label + t@);
            assert("\n"@ + (label + t@) =~= "\n"@ + label + t@);
        },
        None => {
            assert(lines + optional_line(label, text) =~= lines);
            assert(joined(lines, "\n"@) + line_of(label, text) =~= joined(lines, "\n"@));
        },
    }
}

proof fn lemma_unless_empty(lines: Seq<Seq<char>>, label: Seq<char>, text: Seq<char>)
    requires
        lines.len() > 0,
    ensures
        joined(lines + nonempty_line(label, text), "\n"@) == joined(lines, "\n"@)
            + line_unless_empty(label, text),
{
    if text.len() > 0 {
        lemma_one_more(lines, label + text);
        assert("\n"@ + (label + text) =~= "\n"@ + label + text);
    } else {
        assert(lines + nonempty_line(label, text) =~= lines);
        assert(joined(lines, "\n"@) + line_unless_empty(label, text) =~= joined(lines, "\n"@));
    }
}

/// The environment block says, line by line, where the session works, on what, and each
/// further thing that is known, in this order; of what is not known it says nothing.
pub proof fn the_environment_block_says_what_is_known(
    env: &SandboxFacts,
    ctx: &EnvContext,
    r: String,
)
    requires
        call_ensures(build_env_context_block_with, (env, ctx), r),
    ensures
        r@ == "<environment>"@ + ("\n"@ + ("Working directory: "@ + env.working_directory@)) + (
        "\n"@ + ("Is git repository: "@ + (if ctx.is_git_repo {
            "true"@
        } else {
            "false"@
        }))) + line_of("Git branch: "@, ctx.git_branch) + ("\n"@ + ("Platform: "@ + env.platform@))
            + ("\n"@ + ("OS version: "@ + env.os_version@)) + line_unless_empty(
            "Today's date: "@,
            ctx.current_date@,
        ) + line_unless_empty("Model: "@, ctx.model@) + line_unless_empty(
            "Knowledge cutoff: "@,
            ctx.knowledge_cutoff@,
        ) + line_of("Git status:\n"@, ctx.git_status_short) + line_of(
            "Recent commits:\n"@,
            ctx.git_recent_commits,
        ) + ("\n"@ + "</environment>"@),
{
    let l0 = seq!["<environment>"@];
    let l1 = l0 + seq!["Working directory: "@ + env.working_directory@];
    let l2 = l1 + seq!["Is git repository: "@ + truth(ctx.is_git_repo)];
    let l3 = l2 + optional_line("Git branch: "@, ctx.git_branch);
    let l4 = l3 + seq!["Platform: "@ + env.platform@];
    let l5 = l4 + seq!["OS version: "@ + env.os_version@];
    let l6 = l5 + nonempty_line("Today's date: "@, ctx.current_date@);
    let l7 = l6 + nonempty_line("Model: "@, ctx.model@);
    let l8 = l7 + nonempty_line("Knowledge cutoff: "@, ctx.knowledge_cutoff@);
    let l9 = l8 + optional_line("Git status:\n"@, ctx.git_status_short);
    let l10 = l9 + optional_line("Recent commits:\n"@, ctx.git_recent_commits);
    let l11 = l10 + seq!["</environment>"@];
    joining_puts_the_separator_between(l0, l0, "<environment>"@, "\n"@);
    lemma_one_more(l0, "Working directory: "@ + env.working_directory@);
    lemma_one_more(l1, "Is git repository: "@ + truth(ctx.is_git_repo));
    lemma_perhaps(l2, "Git branch: "@, ctx.git_branch);
    lemma_one_more(l3, "Platform: "@ + env.platform@);
    lemma_one_more(l4, "OS version: "@ + env.os_version@);
    lemma_unless_empty(l5, "Today's date: "@, ctx.current_date@);
    lemma_unless_empty(l6, "Model: "@, ctx.model@);
    lemma_unless_empty(l7, "Knowledge cutoff: "@, ctx.knowledge_cutoff@);
    lemma_perhaps(l8, "Git status:\n"@, ctx.git_status_short);
    lemma_perhaps(l9, "Recent commits:\n"@, ctx.git_recent_commits);
    lemma_one_more(l10, "</environment>"@);
    assert(env_lines(*env, *ctx) =~= l11);
}

/// The prompt is followed by the memory, one document after the other, then by the skills
/// and then by the instructions of the user: each section stands behind a blank line, and
/// one that is missing leaves no trace.
pub proof fn sections_follow_the_prompt(
    prompt: String,
    memory: &Vec<String>,
    longer: &Vec<String>,
    none: &Vec<String>,
    skills: &str,
    no_skills: &str,
    instructions: &str,
    bare_prompt: String,
    with_memory: String,
    with_more: String,
    with_skills: String,
    with_all: String,
)
    requires
        none@.len() == 0,
        no_skills@.len() == 0,
        skills@.len() > 0,
        longer@.len() == memory@.len() + 1,
        longer@.drop_last() == memory@,
        call_ensures(
            assemble_system_prompt,
            (prompt, none, no_skills, None::<&str>),
            bare_prompt,
        ),
        call_ensures(
            assemble_system_prompt,
            (prompt, memory, no_skills, None::<&str>),
            with_memory,
        ),
        call_ensures(
            assemble_system_prompt,
            (prompt, longer, no_skills, None::<&str>),
            with_more,
        ),
        call_ensures(assemble_system_prompt, (prompt, memory, skills, None::<&str>), with_skills),
        call_ensures(assemble_system_prompt, (prompt, memory, skills, Some(instructions)), with_all),
    ensures
        bare_prompt@ == prompt@,
        with_more@ == with_memory@ + "\n\n"@ + longer@.last()@,
        with_skills@ == with_memory@ + "\n\n"@ + skills@,
        with_all@ == with_skills@ + "\n\n# User Instructions\n"@ + instructions@,
{
    let a = views(memory@);
    let b = views(longer@);
    assert(b =~= a + seq![longer@.last()@]);
    assert(bare_prompt@ =~= prompt@);
    joining_puts_the_separator_between(a, seq![longer@.last()@], longer@.last()@, "\n\n"@);
    if a.len() == 0 {
        assert(b =~= seq![longer@.last()@]);
    }
    assert(with_more@ =~= with_memory@ + "\n\n"@ + longer@.last()@);
    assert(with_skills@ =~= with_memory@ + "\n\n"@ + skills@);
    assert(with_all@ =~= with_skills@ + "\n\n# User Instructions\n"@ + instructions@);
}

/// A builder gives what it was configured with, each time, and configuring one thing leaves
/// the others as they are.
pub proof fn builders_give_what_they_were_given<C>(
    builder: AgentProfileBuilder<C>,
    secrets: ToolSecrets,
    summarize: bool,
    with_secrets: AgentProfileBuilder<C>,
    with_summarizer: AgentProfileBuilder<C>,
    parts: ProfileParts<C>,
    secret_parts: ProfileParts<C>,
    summarizer_parts: ProfileParts<C>,
)
    requires
        call_ensures(
            AgentProfileBuilder::<C>::with_tool_secrets,
            (builder, secrets),
            with_secrets,
        ),
        call_ensures(
            AgentProfileBuilder::<C>::with_web_fetch_summarizer,
            (builder, summarize),
            with_summarizer,
        ),
        call_ensures(AgentProfileBuilder::<C>::build, (&builder,), parts),
        call_ensures(AgentProfileBuilder::<C>::build, (&with_secrets,), secret_parts),
        call_ensures(AgentProfileBuilder::<C>::build, (&with_summarizer,), summarizer_parts),
    ensures
        parts.profile_kind == builder.profile_kind,
        parts.provider_id == builder.provider_id,
        parts.model == builder.model,
        parts.catalog == builder.catalog,
        parts.options == builder.native_tool_options,
        parts.summarize_web_pages == builder.summarize_web_pages,
        secret_parts.options.secrets == secrets,
        secret_parts.options.default_command_timeout_ms == parts.options.default_command_timeout_ms,
        secret_parts.options.max_command_timeout_ms == parts.options.max_command_timeout_ms,
        secret_parts.model == parts.model,
        secret_parts.provider_id == parts.provider_id,
        secret_parts.catalog == parts.catalog,
        secret_parts.profile_kind == parts.profile_kind,
        secret_parts.summarize_web_pages == parts.summarize_web_pages,
        summarizer_parts.summarize_web_pages == summarize,
        summarizer_parts.options == parts.options,
        summarizer_parts.model == parts.model,
        summarizer_parts.provider_id == parts.provider_id,
        summarizer_parts.catalog == parts.catalog,
        summarizer_parts.profile_kind == parts.profile_kind,
{
}

/// The environment block cannot be overridden: whatever inputs a template has, that of the
/// block is the block, and every other input stays.
pub proof fn the_environment_is_put_in_last(
    prompt: EmbeddedPrompt,
    env: &SandboxFacts,
    ctx: &EnvContext,
    r: EmbeddedPrompt,
    block: String,
    name: Seq<char>,
)
    requires
        call_ensures(EmbeddedPrompt::with_environment, (prompt, env, ctx), r),
        call_ensures(build_env_context_block_with, (env, ctx), block),
    ensures
        r.name == prompt.name,
        r.source == prompt.source,
        r.inputs@.dom().contains("env_block"@),
        r.inputs@["env_block"@] matches PromptInput::Text(text) && text@ == block@,
        name != "env_block"@ ==> {
            &&& r.inputs@.dom().contains(name) <==> prompt.inputs@.dom().contains(name)
            &&& prompt.inputs@.dom().contains(name) ==> r.inputs@[name] == prompt.inputs@[name]
        },
{
}

/// A template has the inputs that it was given, each under its name; of two with one name
/// the last.
pub proof fn templates_have_their_inputs(
    name: &str,
    source: &str,
    made: EmbeddedPrompt,
    key: &str,
    value: String,
    with_text: EmbeddedPrompt,
    flag: bool,
    with_flag: EmbeddedPrompt,
    other: Seq<char>,
)
    requires
        call_ensures(EmbeddedPrompt::new, (name, source), made),
        call_ensures(EmbeddedPrompt::with_string, (made, key, value), with_text),
        call_ensures(EmbeddedPrompt::with_bool, (with_text, key, flag), with_flag),
    ensures
        made.name@ == name@,
        made.source@ == source@,
        !made.inputs@.dom().contains(other),
        with_text.inputs@.dom().contains(key@),
        with_text.inputs@[key@] == PromptInput::Text(value),
        with_flag.inputs@[key@] == PromptInput::Flag(flag),
        other != key@ ==> !with_text.inputs@.dom().contains(other)
            && !with_flag.inputs@.dom().contains(other),
        with_flag.name == made.name,
        with_flag.source == made.source,
{
}

/// Where nothing is known but what the sandbox says, the block says just that, and that
/// there is no repository.
pub proof fn bare_blocks_say_what_the_sandbox_says(
    env: &SandboxFacts,
    ctx: &EnvContext,
    r: String,
    full: String,
)
    requires
        call_ensures(build_env_context_block, (env,), r),
        call_ensures(build_env_context_block_with, (env, ctx), full),
        ctx.git_branch is None,
        !ctx.is_git_repo,
        ctx.current_date@.len() == 0,
        ctx.model@.len() == 0,
        ctx.knowledge_cutoff@.len() == 0,
        ctx.git_status_short is None,
        ctx.git_recent_commits is None,
    ensures
        r@ == full@,
{
    let other = choose|other: EnvContext| #[trigger] bare(other) && r@ == joined(
        env_lines(*env, other),
        "\n"@,
    );
    assert(env_lines(*env, other) =~= env_lines(*env, *ctx));
}

} // verus!
