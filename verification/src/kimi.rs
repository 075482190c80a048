//! The Kimi profile: the tools it registers and the names it exposes them under.

use std::sync::Arc;

use vstd::prelude::*;
use vstd::string::*;

use crate::json::Tree;
use crate::kimi_tools::{
    bash_description, bash_parameters, make_kimi_bash_tool, make_kimi_read_tool,
    make_kimi_write_tool, read_parameters, write_parameters, READ_DESCRIPTION, WRITE_DESCRIPTION,
};
use crate::native_tool::{names_identify_their_tool, NativeTool, ToolVocabulary};
use crate::profiles::{AgentProfileKind, BaseProfile, NativeToolOptions};
use crate::text::views;
use crate::text_map::TextMap;
use crate::tool_schema::ToolDefinition;

verus! {

pub const EDIT_FILE_DESCRIPTION: &'static str = "Edit a file by replacing an exact string. \
Read the file with Read before EVERY edit — this workspace refuses writes to files that \
have not been read, and the call will fail. Take old_string verbatim from the Read output; \
never reconstruct it from memory or from an earlier version of the file. old_string must be an \
exact match and unique unless replace_all is true. If the edit fails with 'old_string not found', \
re-read the file and take the exact text from the fresh output rather than guessing again. \
Preserve existing indentation.";

pub const GREP_DESCRIPTION: &'static str = "Search file contents with a regular expression.

Use Grep when you are looking for unknown content or an unknown location. If you already know the \
path, use Read instead. Prefer this over running `grep` or `rg` through Bash: it caps its output, \
so it will not flood the conversation.

- Backed by ripgrep when available and POSIX `grep` otherwise, so keep patterns portable across \
both rather than relying on ripgrep-only syntax.
- `path` chooses the search root, `glob_filter` limits which files are searched, \
`case_insensitive` folds case, and `max_results` caps the output.";

pub const GLOB_DESCRIPTION: &'static str = "Find files by name using a glob pattern, most recently modified \
first.

Use this instead of `find` or recursive `ls` through Bash. Prefer patterns with a literal anchor \
— an extension or a subdirectory — over bare wildcards.

Good patterns:
- `*.rs` — an extension at any depth below the search root
- `src/*.rs` — directly inside `src/`, not recursive
- `src/**/*.rs` — recursive walk under a subdirectory
- `{src,tests}/**/*.rs` — brace expansion works

Avoid recursing into dependency or build output (`node_modules/**`, `target/**`): those produce \
thousands of matches and waste context. Narrow to a specific subpath instead. Results are files, \
so to locate a directory, glob for something inside it.";

// ---- The registry ----

/// A definition as a value.
pub struct Definition {
    pub name: Seq<char>,
    pub description: Seq<char>,
    pub parameters: Tree,
}

impl View for ToolDefinition {
    type V = Definition;

    open spec fn view(&self) -> Definition {
        Definition {
            name: self.name@,
            description: self.description@,
            parameters: self.parameters.tree(),
        }
    }
}

/// Definitions by the names they are exposed under.
pub type Tools = Map<Seq<char>, Definition>;

/// `name` is what the vocabulary makes of `given`: the name that the vocabulary has for
/// the built-in tool that goes by it, or the same name where no built-in tool does.
pub open spec fn exposes(vocabulary: ToolVocabulary, given: Seq<char>, name: Seq<char>) -> bool {
    &&& forall|tool: NativeTool| #[trigger] tool.goes_by(given) ==> name == tool.named(vocabulary)
    &&& (forall|tool: NativeTool| !#[trigger] tool.goes_by(given)) ==> name == given
}

/// What the vocabulary makes of a name.
pub open spec fn exposed(vocabulary: ToolVocabulary, given: Seq<char>) -> Seq<char> {
    choose|name: Seq<char>| exposes(vocabulary, given, name)
}

proof fn lemma_exposed(vocabulary: ToolVocabulary, given: Seq<char>, name: Seq<char>)
    requires
        exposes(vocabulary, given, name),
    ensures
        exposed(vocabulary, given) == name,
{
    let other = exposed(vocabulary, given);
    if exists|tool: NativeTool| #[trigger] tool.goes_by(given) {
        let tool = choose|tool: NativeTool| #[trigger] tool.goes_by(given);
        assert(name == tool.named(vocabulary));
        assert(other == tool.named(vocabulary));
    }
}

/// A built-in tool is exposed under the name that the vocabulary has for it, whichever
/// of its names it was given.
pub proof fn built_in_tools_are_exposed_in_the_vocabulary(
    vocabulary: ToolVocabulary,
    tool: NativeTool,
    given: Seq<char>,
)
    requires
        tool.goes_by(given),
    ensures
        exposed(vocabulary, given) == tool.named(vocabulary),
{
    assert forall|other: NativeTool| #[trigger] other.goes_by(given) implies tool.named(vocabulary)
        == other.named(vocabulary) by {
        names_identify_their_tool(tool, other, given);
    }
    lemma_exposed(vocabulary, given, tool.named(vocabulary));
}

/// The tools with one more: it takes the place of the one that is exposed under the same
/// name.
pub open spec fn with_tool(
    tools: Tools,
    vocabulary: ToolVocabulary,
    definition: Definition,
) -> Tools {
    let name = exposed(vocabulary, definition.name);
    tools.insert(name, Definition { name, ..definition })
}

/// The tools with more of them, one after the other.
pub open spec fn with_all(
    tools: Tools,
    vocabulary: ToolVocabulary,
    definitions: Seq<Definition>,
) -> Tools
    decreases definitions.len(),
{
    if definitions.len() == 0 {
        tools
    } else {
        with_tool(
            with_all(tools, vocabulary, definitions.drop_last()),
            vocabulary,
            definitions.last(),
        )
    }
}

/// The tools with another description for one of them, where it is there.
pub open spec fn redescribed(
    tools: Tools,
    vocabulary: ToolVocabulary,
    tool: NativeTool,
    description: Seq<char>,
) -> Tools {
    let name = tool.named(vocabulary);
    if tools.dom().contains(name) {
        tools.insert(name, Definition { description, ..tools[name] })
    } else {
        tools
    }
}

/// The tools of a profile, under the names of its vocabulary.
#[derive(Debug, PartialEq, Eq)]
pub struct ToolRegistry {
    vocabulary: ToolVocabulary,
    tools: TextMap<ToolDefinition>,
}

impl View for ToolRegistry {
    type V = Tools;

    closed spec fn view(&self) -> Tools {
        self.tools@.map_values(|d: ToolDefinition| d@)
    }
}

impl ToolRegistry {
    /// The vocabulary of the registry.
    pub closed spec fn speaks(self) -> ToolVocabulary {
        self.vocabulary
    }

    /// A registry without tools.
    pub fn with_vocabulary(vocabulary: ToolVocabulary) -> (r: Self)
        ensures
            r.speaks() == vocabulary,
            r@ == Map::<Seq<char>, Definition>::empty(),
    {
        let r = ToolRegistry { vocabulary, tools: TextMap::new() };
        proof {
            assert(r@ =~= Map::<Seq<char>, Definition>::empty());
        }
        r
    }

    /// The vocabulary of the registry.
    pub fn vocabulary(&self) -> (r: ToolVocabulary)
        ensures
            r == self.speaks(),
    {
        self.vocabulary
    }

    /// Registers a tool under the name that the vocabulary has for it, in place of the
    /// one that is exposed under that name.
    pub fn register(&mut self, definition: ToolDefinition)
        ensures
            final(self)@ == with_tool(old(self)@, old(self).speaks(), definition@),
            final(self).speaks() == old(self).speaks(),
    {
        let ghost given = definition.name@;
        let ghost before = self@;
        let name = match NativeTool::from_any_name(definition.name.as_str()) {
            Some(tool) => {
                proof {
                    assert(tool.goes_by(given));
                    built_in_tools_are_exposed_in_the_vocabulary(self.vocabulary, tool, given);
                }
                tool.name(self.vocabulary).to_owned()
            },
            None => {
                proof {
                    lemma_exposed(self.vocabulary, given, given);
                }
                definition.name
            },
        };
        proof {
            assert(name@ == exposed(self.vocabulary, given));
        }
        let renamed = ToolDefinition {
            name: name.clone(),
            description: definition.description,
            parameters: definition.parameters,
        };
        let ghost shown = renamed@;
        let ghost key = name@;
        self.tools.insert(name, renamed);
        proof {
            assert(self@ =~= before.insert(key, shown));
        }
    }

    /// Gives a tool another description, where it is registered.
    pub fn redescribe(&mut self, tool: NativeTool, description: &str)
        ensures
            final(self)@ == redescribed(old(self)@, old(self).speaks(), tool, description@),
            final(self).speaks() == old(self).speaks(),
    {
        let ghost before = self@;
        let name = tool.name(self.vocabulary);
        let ghost raw = self.tools@;
        match self.tools.remove(name) {
            Some(definition) => {
                let ghost shown = Definition { description: description@, ..definition@ };
                let key = name.to_owned();
                self.tools.insert(
                    key,
                    ToolDefinition {
                        name: definition.name,
                        description: description.to_owned(),
                        parameters: definition.parameters,
                    },
                );
                proof {
                    assert(before[name@] == definition@);
                    assert(self@ =~= before.insert(name@, shown));
                }
            },
            None => {
                proof {
                    assert(raw.remove(name@) =~= raw);
                    assert(self@ =~= before);
                }
            },
        }
    }

    /// The tool that is exposed under a name.
    pub fn get(&self, name: &str) -> (r: Option<&ToolDefinition>)
        ensures
            match r {
                Some(definition) => self@.dom().contains(name@) && self@[name@] == definition@,
                None => !self@.dom().contains(name@),
            },
    {
        self.tools.get(name)
    }

    /// The names that tools are exposed under, each of them once.
    pub fn names(&self) -> (r: Vec<String>)
        ensures
            views(r@).to_set() == self@.dom(),
            views(r@).no_duplicates(),
    {
        let r = self.tools.key_list();
        proof {
            assert(self.tools@.dom() =~= self@.dom());
        }
        r
    }
}

// ---- The profile ----

/// The definitions that the Kimi profile adds to the core tools, in the order in which
/// it registers them: those that differ from the built-ins come behind them and take
/// their place.
pub open spec fn own_tools(edit: Definition, options: NativeToolOptions) -> Seq<Definition> {
    let default_seconds = (options.default_command_timeout_ms / 1000) as nat;
    let max_seconds = (options.max_command_timeout_ms / 1000) as nat;
    seq![
        edit,
        Definition {
            name: NativeTool::ReadFile.canonical(),
            description: READ_DESCRIPTION@,
            parameters: read_parameters(),
        },
        Definition {
            name: NativeTool::WriteFile.canonical(),
            description: WRITE_DESCRIPTION@,
            parameters: write_parameters(),
        },
        Definition {
            name: NativeTool::Shell.canonical(),
            description: bash_description(default_seconds, max_seconds),
            parameters: bash_parameters(default_seconds, max_seconds),
        },
    ]
}

/// The tools of the Kimi profile.
pub open spec fn kimi_tools_of(
    core: Seq<Definition>,
    edit: Definition,
    todo: Definition,
    options: NativeToolOptions,
) -> Tools {
    let vocabulary = ToolVocabulary::KimiCode;
    let registered = with_all(
        with_all(Map::empty(), vocabulary, core),
        vocabulary,
        own_tools(edit, options),
    );
    let edited = redescribed(
        registered,
        vocabulary,
        NativeTool::EditFile,
        EDIT_FILE_DESCRIPTION@,
    );
    let grep = redescribed(edited, vocabulary, NativeTool::Grep, GREP_DESCRIPTION@);
    let glob = redescribed(grep, vocabulary, NativeTool::Glob, GLOB_DESCRIPTION@);
    with_tool(glob, vocabulary, todo)
}

/// The Kimi profile, with a catalog of type `C` where it is given one.
#[derive(Debug, PartialEq, Eq)]
pub struct KimiProfile<C> {
    pub base: BaseProfile<C>,
}

/// Definitions as values.
pub open spec fn definition_views(definitions: Seq<ToolDefinition>) -> Seq<Definition> {
    definitions.map_values(|d: ToolDefinition| d@)
}

/// The profile for a model over the tools of the platform, on the provider `kimi` and
/// without a catalog.
pub open spec fn is_kimi_profile<C>(
    profile: KimiProfile<C>,
    model: String,
    options: NativeToolOptions,
    core: Seq<Definition>,
    edit: Definition,
    todo: Definition,
) -> bool {
    &&& profile.base.profile_kind == AgentProfileKind::Kimi
    &&& profile.base.provider_id@ == "kimi"@
    &&& profile.base.model == model
    &&& profile.base.catalog is None
    &&& profile.base.registry.speaks() == ToolVocabulary::KimiCode
    &&& profile.base.registry@ == kimi_tools_of(core, edit, todo, options)
}

impl<C> KimiProfile<C> {
    /// A profile with the options that the platform has for the kind of the profile.
    pub fn new(
        model: String,
        options: NativeToolOptions,
        core_tools: Vec<ToolDefinition>,
        edit_tool: ToolDefinition,
        todo_tool: ToolDefinition,
    ) -> (r: Self)
        ensures
            is_kimi_profile(
                r,
                model,
                options,
                definition_views(core_tools@),
                edit_tool@,
                todo_tool@,
            ),
    {
        Self::with_native_tools(model, &options, core_tools, edit_tool, todo_tool)
    }

    /// A profile with the core tools, the edit tool and the todo tool of the platform
    /// besides its own.
    pub fn with_native_tools(
        model: String,
        options: &NativeToolOptions,
        core_tools: Vec<ToolDefinition>,
        edit_tool: ToolDefinition,
        todo_tool: ToolDefinition,
    ) -> (r: Self)
        ensures
            is_kimi_profile(
                r,
                model,
                *options,
                definition_views(core_tools@),
                edit_tool@,
                todo_tool@,
            ),
    {
        let ghost core = definition_views(core_tools@);
        let ghost vocabulary = ToolVocabulary::KimiCode;
        let mut registry = ToolRegistry::with_vocabulary(ToolVocabulary::KimiCode);
        let ghost given = core_tools@;
        let mut rest = core_tools;
        let ghost mut done: int = 0;
        proof {
            assert(core.take(0).len() == 0);
        }
        while rest.len() > 0
            invariant
                vocabulary == ToolVocabulary::KimiCode,
                core == definition_views(given),
                0 <= done <= given.len(),
                rest@ == given.skip(done),
                registry.speaks() == vocabulary,
                registry@ == with_all(Map::empty(), vocabulary, core.take(done)),
            decreases rest@.len(),
        {
            let definition = rest.remove(0);
            proof {
                assert(definition == given[done]);
                assert(core.take(done + 1).drop_last() =~= core.take(done));
                assert(core.take(done + 1).last() == definition@);
                assert(rest@ =~= given.skip(done + 1));
                done = done + 1;
            }
            registry.register(definition);
        }
        proof {
            assert(core.take(done) =~= core);
        }
        let ghost base = registry@;
        let ghost own = own_tools(edit_tool@, *options);
        proof {
            assert(own.take(0).len() == 0);
            assert(own.take(1).drop_last() =~= own.take(0));
            assert(own.take(2).drop_last() =~= own.take(1));
            assert(own.take(3).drop_last() =~= own.take(2));
            assert(own.take(4).drop_last() =~= own.take(3));
            assert(own.take(4) =~= own);
            assert(with_all(base, vocabulary, own.take(0)) == base);
            assert(own.take(1).last() == own[0]);
            assert(own.take(2).last() == own[1]);
            assert(own.take(3).last() == own[2]);
            assert(own.take(4).last() == own[3]);
        }
        registry.register(edit_tool);
        assert(registry@ == with_all(base, vocabulary, own.take(1)));
        registry.register(make_kimi_read_tool());
        assert(registry@ == with_all(base, vocabulary, own.take(2)));
        registry.register(make_kimi_write_tool());
        assert(registry@ == with_all(base, vocabulary, own.take(3)));
        registry.register(
            make_kimi_bash_tool(
                options.default_command_timeout_ms,
                options.max_command_timeout_ms,
            ),
        );
        assert(registry@ == with_all(base, vocabulary, own));
        registry.redescribe(NativeTool::EditFile, EDIT_FILE_DESCRIPTION);
        registry.redescribe(NativeTool::Grep, GREP_DESCRIPTION);
        registry.redescribe(NativeTool::Glob, GLOB_DESCRIPTION);
        registry.register(todo_tool);
        KimiProfile {
            base: BaseProfile {
                profile_kind: AgentProfileKind::Kimi,
                provider_id: "kimi".to_owned(),
                model,
                catalog: None,
                registry,
            },
        }
    }

    /// The profile on another provider. Kimi models are served both directly and through
    /// gateways.
    pub fn with_provider_id(self, provider_id: String) -> (r: Self)
        ensures
            r == (KimiProfile { base: BaseProfile { provider_id, ..self.base } }),
    {
        let mut r = self;
        r.base.provider_id = provider_id;
        r
    }

    /// The profile with a catalog.
    pub fn with_catalog(self, catalog: Arc<C>) -> (r: Self)
        ensures
            r == (KimiProfile { base: BaseProfile { catalog: Some(catalog), ..self.base } }),
    {
        let mut r = self;
        r.base.catalog = Some(catalog);
        r
    }

    /// The kind of the profile.
    pub fn profile_kind(&self) -> (r: AgentProfileKind)
        ensures
            r == self.base.profile_kind,
    {
        self.base.profile_kind
    }

    /// The provider of the profile.
    pub fn provider_id(&self) -> (r: String)
        ensures
            r == self.base.provider_id,
    {
        self.base.provider_id.clone()
    }

    /// The model of the profile.
    pub fn model(&self) -> (r: &String)
        ensures
            *r == self.base.model,
    {
        &self.base.model
    }

    /// The catalog of the profile, if it was given one.
    pub fn catalog(&self) -> (r: Option<&C>)
        ensures
            match r {
                Some(catalog) => self.base.catalog matches Some(shared) && *shared == *catalog,
                None => self.base.catalog is None,
            },
    {
        match &self.base.catalog {
            Some(shared) => Some(&**shared),
            None => None,
        }
    }

    /// The tools of the profile.
    pub fn tool_registry(&self) -> (r: &ToolRegistry)
        ensures
            *r == self.base.registry,
    {
        &self.base.registry
    }

    /// The tools of the profile, for registering more of them.
    pub fn tool_registry_mut(&mut self) -> (r: &mut ToolRegistry)
        ensures
            *r == old(self).base.registry,
            *final(self) == (KimiProfile {
                base: BaseProfile { registry: *final(r), ..old(self).base },
            }),
    {
        &mut self.base.registry
    }
}

/// Every built-in tool among them is exposed under the name that the vocabulary has for
/// it.
pub open spec fn in_vocabulary(tools: Tools, vocabulary: ToolVocabulary) -> bool {
    forall|name: Seq<char>, tool: NativeTool|
        tools.dom().contains(name) && #[trigger] tool.goes_by(name) ==> name == tool.named(
            vocabulary,
        )
}

/// Registering a tool, at whatever time and under whichever of its names, keeps the
/// registry to its vocabulary, and so does redescribing one.
pub proof fn registering_keeps_to_the_vocabulary(
    tools: Tools,
    vocabulary: ToolVocabulary,
    definition: Definition,
    tool: NativeTool,
    description: Seq<char>,
)
    requires
        in_vocabulary(tools, vocabulary),
    ensures
        in_vocabulary(with_tool(tools, vocabulary, definition), vocabulary),
        in_vocabulary(redescribed(tools, vocabulary, tool, description), vocabulary),
{
    let given = definition.name;
    let after = with_tool(tools, vocabulary, definition);
    assert forall|name: Seq<char>, other: NativeTool|
        after.dom().contains(name) && #[trigger] other.goes_by(name) implies name == other.named(
        vocabulary,
    ) by {
        if name == exposed(vocabulary, given) {
            if exists|named: NativeTool| #[trigger] named.goes_by(given) {
                let named = choose|named: NativeTool| #[trigger] named.goes_by(given);
                built_in_tools_are_exposed_in_the_vocabulary(vocabulary, named, given);
                assert(named.goes_by(name));
                names_identify_their_tool(other, named, name);
            } else {
                lemma_exposed(vocabulary, given, given);
                assert(other.goes_by(given));
            }
        }
    }
    let renamed = redescribed(tools, vocabulary, tool, description);
    assert(renamed.dom() =~= tools.dom());
}

proof fn lemma_all_in_vocabulary(
    tools: Tools,
    vocabulary: ToolVocabulary,
    definitions: Seq<Definition>,
)
    requires
        in_vocabulary(tools, vocabulary),
    ensures
        in_vocabulary(with_all(tools, vocabulary, definitions), vocabulary),
    decreases definitions.len(),
{
    if definitions.len() > 0 {
        let init = definitions.drop_last();
        lemma_all_in_vocabulary(tools, vocabulary, init);
        registering_keeps_to_the_vocabulary(
            with_all(tools, vocabulary, init),
            vocabulary,
            definitions.last(),
            NativeTool::Shell,
            Seq::empty(),
        );
    }
}

/// The Kimi profile exposes built-in tools under Kimi Code's names only, whatever tools
/// the platform hands it.
pub proof fn only_kimi_names_are_exposed(
    core: Seq<Definition>,
    edit: Definition,
    todo: Definition,
    options: NativeToolOptions,
)
    ensures
        in_vocabulary(kimi_tools_of(core, edit, todo, options), ToolVocabulary::KimiCode),
{
    let vocabulary = ToolVocabulary::KimiCode;
    let base = with_all(Map::empty(), vocabulary, core);
    lemma_all_in_vocabulary(Map::empty(), vocabulary, core);
    lemma_all_in_vocabulary(base, vocabulary, own_tools(edit, options));
    let registered = with_all(base, vocabulary, own_tools(edit, options));
    registering_keeps_to_the_vocabulary(
        registered,
        vocabulary,
        todo,
        NativeTool::EditFile,
        EDIT_FILE_DESCRIPTION@,
    );
    let edited = redescribed(
        registered,
        vocabulary,
        NativeTool::EditFile,
        EDIT_FILE_DESCRIPTION@,
    );
    registering_keeps_to_the_vocabulary(
        edited,
        vocabulary,
        todo,
        NativeTool::Grep,
        GREP_DESCRIPTION@,
    );
    let grep = redescribed(edited, vocabulary, NativeTool::Grep, GREP_DESCRIPTION@);
    registering_keeps_to_the_vocabulary(
        grep,
        vocabulary,
        todo,
        NativeTool::Glob,
        GLOB_DESCRIPTION@,
    );
    let glob = redescribed(grep, vocabulary, NativeTool::Glob, GLOB_DESCRIPTION@);
    registering_keeps_to_the_vocabulary(
        glob,
        vocabulary,
        todo,
        NativeTool::Glob,
        GLOB_DESCRIPTION@,
    );
}

/// A tool of the profile that is exposed under a built-in tool's name.
pub open spec fn exposes_tool(
    tools: Tools,
    tool: NativeTool,
    description: Seq<char>,
    parameters: Tree,
) -> bool {
    let name = tool.named(ToolVocabulary::KimiCode);
    tools.dom().contains(name) && tools[name] == (Definition { name, description, parameters })
}

/// Whatever core tools the platform has, `Read`, `Write` and `Bash` behave to Kimi Code's
/// contract, and `Edit` is the platform's with its own description. The todo tool must
/// be none of these.
pub proof fn kimi_contracts_take_the_place_of_the_built_ins(
    core: Seq<Definition>,
    edit: Definition,
    todo: Definition,
    options: NativeToolOptions,
)
    requires
        edit.name == NativeTool::EditFile.canonical(),
        forall|tool: NativeTool| !#[trigger] tool.goes_by(todo.name),
    ensures
        ({
            let tools = kimi_tools_of(core, edit, todo, options);
            let default_seconds = (options.default_command_timeout_ms / 1000) as nat;
            let max_seconds = (options.max_command_timeout_ms / 1000) as nat;
            &&& exposes_tool(tools, NativeTool::ReadFile, READ_DESCRIPTION@, read_parameters())
            &&& exposes_tool(tools, NativeTool::WriteFile, WRITE_DESCRIPTION@, write_parameters())
            &&& exposes_tool(
                tools,
                NativeTool::Shell,
                bash_description(default_seconds, max_seconds),
                bash_parameters(default_seconds, max_seconds),
            )
            &&& exposes_tool(
                tools,
                NativeTool::EditFile,
                EDIT_FILE_DESCRIPTION@,
                edit.parameters,
            )
        }),
{
    let vocabulary = ToolVocabulary::KimiCode;
    let base = with_all(Map::empty(), vocabulary, core);
    let own = own_tools(edit, options);
    let read = NativeTool::ReadFile;
    let write = NativeTool::WriteFile;
    let shell = NativeTool::Shell;
    let change = NativeTool::EditFile;
    let search = NativeTool::Grep;
    let find = NativeTool::Glob;
    built_in_tools_are_exposed_in_the_vocabulary(vocabulary, change, change.canonical());
    built_in_tools_are_exposed_in_the_vocabulary(vocabulary, read, read.canonical());
    built_in_tools_are_exposed_in_the_vocabulary(vocabulary, write, write.canonical());
    built_in_tools_are_exposed_in_the_vocabulary(vocabulary, shell, shell.canonical());
    lemma_exposed(vocabulary, todo.name, todo.name);
    lemma_names_differ(read, write);
    lemma_names_differ(read, shell);
    lemma_names_differ(read, change);
    lemma_names_differ(read, search);
    lemma_names_differ(read, find);
    lemma_names_differ(write, shell);
    lemma_names_differ(write, change);
    lemma_names_differ(write, search);
    lemma_names_differ(write, find);
    lemma_names_differ(shell, change);
    lemma_names_differ(shell, search);
    lemma_names_differ(shell, find);
    lemma_names_differ(change, search);
    lemma_names_differ(change, find);
    assert(!read.goes_by(todo.name) && !write.goes_by(todo.name) && !shell.goes_by(todo.name)
        && !change.goes_by(todo.name));
    let one = own.drop_last().drop_last().drop_last();
    let two = own.drop_last().drop_last();
    let three = own.drop_last();
    assert(one.drop_last().len() == 0);
    assert(one.last() == edit);
    assert(two.last() == own[1]);
    assert(three.last() == own[2]);
    assert(own.last() == own[3]);
    assert(with_all(base, vocabulary, one.drop_last()) == base);
    let first = with_tool(base, vocabulary, edit);
    let second = with_tool(first, vocabulary, own[1]);
    let third = with_tool(second, vocabulary, own[2]);
    let fourth = with_tool(third, vocabulary, own[3]);
    assert(with_all(base, vocabulary, one) == first);
    assert(with_all(base, vocabulary, two) == second);
    assert(with_all(base, vocabulary, three) == third);
    assert(with_all(base, vocabulary, own) == fourth);
    assert(fourth.dom().contains(read.named(vocabulary)));
    assert(fourth.dom().contains(write.named(vocabulary)));
    assert(fourth.dom().contains(shell.named(vocabulary)));
    assert(fourth.dom().contains(change.named(vocabulary)));
    assert(fourth[change.named(vocabulary)].parameters == edit.parameters);
    assert(fourth[change.named(vocabulary)].name == change.named(vocabulary));
}

proof fn lemma_names_differ(a: NativeTool, b: NativeTool)
    requires
        a != b,
    ensures
        a.named(ToolVocabulary::KimiCode) != b.named(ToolVocabulary::KimiCode),
{
    if a.named(ToolVocabulary::KimiCode) == b.named(ToolVocabulary::KimiCode) {
        names_identify_their_tool(a, b, a.named(ToolVocabulary::KimiCode));
    }
}

// ---- What a registry and a profile are for ----

/// Registering a tool changes what is exposed under its own name, and nothing else. A
/// built-in tool has the name that the vocabulary has for it, whichever name it was given,
/// and any other tool keeps its name.
pub proof fn registering_changes_one_tool(
    tools: Tools,
    vocabulary: ToolVocabulary,
    definition: Definition,
    tool: NativeTool,
    other: Seq<char>,
)
    ensures
        tool.goes_by(definition.name) ==> {
            let after = with_tool(tools, vocabulary, definition);
            let name = tool.named(vocabulary);
            &&& after.dom().contains(name)
            &&& after[name].name == name
            &&& after[name].description == definition.description
            &&& after[name].parameters == definition.parameters
            &&& other != name ==> {
                &&& after.dom().contains(other) <==> tools.dom().contains(other)
                &&& tools.dom().contains(other) ==> after[other] == tools[other]
            }
        },
        (forall|any: NativeTool| !#[trigger] any.goes_by(definition.name)) ==> {
            let after = with_tool(tools, vocabulary, definition);
            &&& after.dom().contains(definition.name)
            &&& after[definition.name] == definition
            &&& other != definition.name ==> {
                &&& after.dom().contains(other) <==> tools.dom().contains(other)
                &&& tools.dom().contains(other) ==> after[other] == tools[other]
            }
        },
{
    if tool.goes_by(definition.name) {
        built_in_tools_are_exposed_in_the_vocabulary(vocabulary, tool, definition.name);
    }
    if forall|any: NativeTool| !#[trigger] any.goes_by(definition.name) {
        lemma_exposed(vocabulary, definition.name, definition.name);
    }
}

/// Redescribing a tool changes its description where it is registered; its name, its
/// parameters and every other tool stay, and no tool comes or goes.
pub proof fn redescribing_changes_one_description(
    tools: Tools,
    vocabulary: ToolVocabulary,
    tool: NativeTool,
    description: Seq<char>,
    other: Seq<char>,
)
    ensures
        ({
            let after = redescribed(tools, vocabulary, tool, description);
            let name = tool.named(vocabulary);
            &&& after.dom().contains(other) <==> tools.dom().contains(other)
            &&& tools.dom().contains(other) && other != name ==> after[other] == tools[other]
            &&& tools.dom().contains(name) ==> {
                &&& after[name].description == description
                &&& after[name].name == tools[name].name
                &&& after[name].parameters == tools[name].parameters
            }
        }),
{
}

/// A new profile speaks to the model that it was given, on the provider `kimi`, in Kimi
/// Code's vocabulary, and knows no catalog; both ways to make one give the same.
pub proof fn profiles_begin_on_kimi<C>(
    model: String,
    options: NativeToolOptions,
    core_tools: Vec<ToolDefinition>,
    edit_tool: ToolDefinition,
    todo_tool: ToolDefinition,
    made: KimiProfile<C>,
    with_tools: KimiProfile<C>,
)
    requires
        call_ensures(
            KimiProfile::<C>::new,
            (model, options, core_tools, edit_tool, todo_tool),
            made,
        ),
        call_ensures(
            KimiProfile::<C>::with_native_tools,
            (model, &options, core_tools, edit_tool, todo_tool),
            with_tools,
        ),
    ensures
        made.base.profile_kind == AgentProfileKind::Kimi,
        made.base.provider_id@ == "kimi"@,
        made.base.model == model,
        made.base.catalog is None,
        made.base.registry.speaks() == ToolVocabulary::KimiCode,
        with_tools.base.registry@ == made.base.registry@,
        with_tools.base.model == made.base.model,
        with_tools.base.provider_id@ == made.base.provider_id@,
{
}

/// The profile has every core tool that nothing takes the place of, under the name that
/// Kimi Code has for it: of two with one name the last, as it was given. `grep` and `glob`
/// have descriptions of their own, and the todo tool is there.
pub proof fn core_tools_are_kept<C>(
    model: String,
    options: NativeToolOptions,
    core_tools: Vec<ToolDefinition>,
    edit_tool: ToolDefinition,
    todo_tool: ToolDefinition,
    made: KimiProfile<C>,
    tool: NativeTool,
    i: int,
)
    requires
        call_ensures(
            KimiProfile::<C>::new,
            (model, options, core_tools, edit_tool, todo_tool),
            made,
        ),
        edit_tool.name@ == NativeTool::EditFile.canonical(),
        forall|any: NativeTool| !#[trigger] any.goes_by(todo_tool.name@),
        0 <= i < core_tools@.len(),
        core_tools@[i].name@ == tool.canonical(),
        forall|j: int|
            i < j < core_tools@.len() ==> exposed(
                ToolVocabulary::KimiCode,
                (#[trigger] core_tools@[j]).name@,
            ) != tool.named(ToolVocabulary::KimiCode),
        tool != NativeTool::EditFile && tool != NativeTool::ReadFile && tool
            != NativeTool::WriteFile && tool != NativeTool::Shell,
    ensures
        ({
            let tools = made.base.registry@;
            let name = tool.named(ToolVocabulary::KimiCode);
            &&& tools.dom().contains(name)
            &&& tools[name].name == name
            &&& tools[name].parameters == core_tools@[i].parameters.tree()
            &&& tool == NativeTool::Grep ==> tools[name].description == GREP_DESCRIPTION@
            &&& tool == NativeTool::Glob ==> tools[name].description == GLOB_DESCRIPTION@
            &&& tool != NativeTool::Grep && tool != NativeTool::Glob ==> tools[name].description
                == core_tools@[i].description@
            &&& tools.dom().contains(todo_tool.name@)
            &&& tools[todo_tool.name@] == todo_tool@
        }),
{
    let vocabulary = ToolVocabulary::KimiCode;
    let core = definition_views(core_tools@);
    let name = tool.named(vocabulary);
    let base = with_all(Map::empty(), vocabulary, core);
    let own = own_tools(edit_tool@, options);
    assert(core[i] == core_tools@[i]@);
    assert(tool.goes_by(core[i].name));
    built_in_tools_are_exposed_in_the_vocabulary(vocabulary, tool, core[i].name);
    assert forall|j: int| i < j < core.len() implies exposed(
        vocabulary,
        (#[trigger] core[j]).name,
    ) != name by {
        assert(core[j] == core_tools@[j]@);
    }
    lemma_last_is_kept(Map::empty(), vocabulary, core, i);
    let read = NativeTool::ReadFile;
    let write = NativeTool::WriteFile;
    let shell = NativeTool::Shell;
    let change = NativeTool::EditFile;
    built_in_tools_are_exposed_in_the_vocabulary(vocabulary, change, change.canonical());
    built_in_tools_are_exposed_in_the_vocabulary(vocabulary, read, read.canonical());
    built_in_tools_are_exposed_in_the_vocabulary(vocabulary, write, write.canonical());
    built_in_tools_are_exposed_in_the_vocabulary(vocabulary, shell, shell.canonical());
    lemma_exposed(vocabulary, todo_tool.name@, todo_tool.name@);
    lemma_names_differ(tool, read);
    lemma_names_differ(tool, write);
    lemma_names_differ(tool, shell);
    lemma_names_differ(tool, change);
    lemma_names_differ(NativeTool::Grep, NativeTool::Glob);
    if tool != NativeTool::Grep {
        lemma_names_differ(tool, NativeTool::Grep);
    }
    if tool != NativeTool::Glob {
        lemma_names_differ(tool, NativeTool::Glob);
    }
    assert(!tool.goes_by(todo_tool.name@));
    let one = own.drop_last().drop_last().drop_last();
    let two = own.drop_last().drop_last();
    let three = own.drop_last();
    assert(one.drop_last().len() == 0);
    assert(one.last() == edit_tool@);
    assert(two.last() == own[1]);
    assert(three.last() == own[2]);
    assert(own.last() == own[3]);
    assert(with_all(base, vocabulary, one.drop_last()) == base);
    let first = with_tool(base, vocabulary, edit_tool@);
    let second = with_tool(first, vocabulary, own[1]);
    let third = with_tool(second, vocabulary, own[2]);
    let fourth = with_tool(third, vocabulary, own[3]);
    assert(with_all(base, vocabulary, one) == first);
    assert(with_all(base, vocabulary, two) == second);
    assert(with_all(base, vocabulary, three) == third);
    assert(with_all(base, vocabulary, own) == fourth);
    assert(fourth.dom().contains(name) && fourth[name] == base[name]);
}

/// The last definition that is exposed under a name is the one that stays.
proof fn lemma_last_is_kept(
    tools: Tools,
    vocabulary: ToolVocabulary,
    definitions: Seq<Definition>,
    i: int,
)
    requires
        0 <= i < definitions.len(),
        forall|j: int|
            i < j < definitions.len() ==> exposed(vocabulary, (#[trigger] definitions[j]).name)
                != exposed(vocabulary, definitions[i].name),
    ensures
        ({
            let name = exposed(vocabulary, definitions[i].name);
            let after = with_all(tools, vocabulary, definitions);
            after.dom().contains(name) && after[name] == (Definition { name, ..definitions[i] })
        }),
    decreases definitions.len(),
{
    let init = definitions.drop_last();
    assert(definitions[definitions.len() - 1] == definitions.last());
    if i < init.len() {
        assert(init[i] == definitions[i]);
        assert forall|j: int| i < j < init.len() implies exposed(
            vocabulary,
            (#[trigger] init[j]).name,
        ) != exposed(vocabulary, init[i].name) by {
            assert(init[j] == definitions[j]);
        }
        lemma_last_is_kept(tools, vocabulary, init, i);
    }
}

/// Another provider or a catalog changes that one thing of a profile.
pub proof fn profiles_change_one_thing_at_a_time<C>(
    profile: KimiProfile<C>,
    provider: String,
    catalog: Arc<C>,
    moved: KimiProfile<C>,
    with_catalog: KimiProfile<C>,
)
    requires
        call_ensures(KimiProfile::<C>::with_provider_id, (profile, provider), moved),
        call_ensures(KimiProfile::<C>::with_catalog, (profile, catalog), with_catalog),
    ensures
        moved.base.provider_id == provider,
        moved.base.model == profile.base.model,
        moved.base.catalog == profile.base.catalog,
        moved.base.registry == profile.base.registry,
        moved.base.profile_kind == profile.base.profile_kind,
        with_catalog.base.catalog == Some(catalog),
        with_catalog.base.provider_id == profile.base.provider_id,
        with_catalog.base.model == profile.base.model,
        with_catalog.base.registry == profile.base.registry,
        with_catalog.base.profile_kind == profile.base.profile_kind,
{
}

/// A registry begins empty, in the vocabulary that it was made for; what is asked of it and
/// of a profile is answered from what they hold.
pub proof fn registries_begin_empty<C>(
    vocabulary: ToolVocabulary,
    made: ToolRegistry,
    spoken: ToolVocabulary,
    name: &str,
    found: Option<&ToolDefinition>,
    names: Vec<String>,
    profile: KimiProfile<C>,
    kind: AgentProfileKind,
    provider: String,
    model: &String,
    catalog: Option<&C>,
)
    requires
        call_ensures(ToolRegistry::with_vocabulary, (vocabulary,), made),
        call_ensures(ToolRegistry::vocabulary, (&made,), spoken),
        call_ensures(ToolRegistry::get, (&made, name), found),
        call_ensures(ToolRegistry::names, (&made,), names),
        call_ensures(KimiProfile::<C>::profile_kind, (&profile,), kind),
        call_ensures(KimiProfile::<C>::provider_id, (&profile,), provider),
        call_ensures(KimiProfile::<C>::model, (&profile,), model),
        call_ensures(KimiProfile::<C>::catalog, (&profile,), catalog),
    ensures
        spoken == vocabulary,
        found is None,
        names@.len() == 0,
        kind == profile.base.profile_kind,
        provider == profile.base.provider_id,
        *model == profile.base.model,
        catalog is Some <==> profile.base.catalog is Some,
{
    let listed = views(names@);
    if names@.len() > 0 {
        assert(listed.to_set().contains(listed[0]));
    }
}

/// What is exposed under a name is found there, and the names that are listed are those
/// under which something is.
pub proof fn registered_tools_are_found(
    registry: ToolRegistry,
    name: &str,
    found: Option<&ToolDefinition>,
    names: Vec<String>,
)
    requires
        call_ensures(ToolRegistry::get, (&registry, name), found),
        call_ensures(ToolRegistry::names, (&registry,), names),
    ensures
        registry@.dom().contains(name@) <==> found is Some,
        found matches Some(definition) ==> definition@ == registry@[name@],
        found is Some <==> exists|i: int| 0 <= i < names@.len() && #[trigger] names@[i]@ == name@,
{
    let listed = views(names@);
    if listed.to_set().contains(name@) {
        let i = choose|i: int| 0 <= i < listed.len() && listed[i] == name@;
        assert(names@[i]@ == name@);
    }
    if exists|i: int| 0 <= i < names@.len() && #[trigger] names@[i]@ == name@ {
        let i = choose|i: int| 0 <= i < names@.len() && #[trigger] names@[i]@ == name@;
        assert(listed[i] == name@);
    }
}

} // verus!
