//! Tools whose behavior differs from the built-ins, to Kimi Code's contract.
//!
//! Where a tool of Kimi Code behaves as a built-in does, the Kimi profile reuses that
//! tool and only its exposed name changes (see
//! [`crate::native_tool::ToolVocabulary`]). These differ in what their parameters
//! *mean*, not just in what they are called:
//!
//! - `Bash` takes `timeout` in **seconds** where the built-in takes milliseconds, and
//!   accepts a `cwd`.
//! - `Read` accepts a **negative** `line_offset`, meaning "read the last N lines".
//! - `Write` takes a `mode`, so it can append.
//! - `Grep` takes an `output_mode`, a `head_limit` and an `offset`.
//!
//! A call is planned here, carried out in the sandbox by the caller, and its result
//! put into shape here.

use vstd::prelude::*;
use vstd::string::*;

use crate::json::{Json, Tree};
use crate::native_tool::NativeTool;
use crate::text::{
    characters, decimal, decimal_text, join, joined, same_text, signed_decimal, signed_decimal_text,
    views,
};
use crate::tool_schema::{
    choice, choice_schema, definition, member_trees, object_schema, parameter, parameter_schema,
    parameters, parameters_say_their_type, tools_take_an_object, ToolDefinition,
};

verus! {

/// How many lines a `Read` call returns that does not say how many it wants.
pub const DEFAULT_READ_LINES: usize = 2000;

// ---- Bash ----

pub const BASH_DESCRIPTION_HEAD: &'static str =
    "Execute a bash command. Use this for shell semantics — pipes, env, processes, git, \
package managers, build and test runners.

Translate these to a dedicated tool instead:
- `cat` / `head` / `tail` on a known path → Read
- `sed` / `awk` for an in-place edit → Edit
- `echo > file` / heredoc → Write
- `find` or recursive `ls` to locate files by name → Glob (plain `ls <dir>` is fine)
- `grep` / `rg` to search file contents → Grep

The dedicated tools cap their output, so they keep large raw dumps out of the conversation.

Output: stdout and stderr are combined and returned as a string. A non-zero exit appends a \
`Command failed with exit code: N` line.

Guidelines:
- Each call runs in a fresh bash process. Environment variables and `cd` do NOT persist between \
calls — pass `cwd`, or use absolute paths.
- `timeout` is in SECONDS. It defaults to ";

pub const BASH_DESCRIPTION_TAIL: &'static str =
    ".
- A long-running command needs a raised `timeout`, not a retry: a command that timed out once \
will time out again.
- Do not run interactive commands, or commands that never exit.
- Chain genuinely dependent steps with `&&`. Issue independent read-only commands as separate \
parallel calls in one response so their output stays separate.
- Quote paths containing spaces.
- Avoid `..` to reach outside the working directory, and do not modify files outside it unless \
explicitly asked. Never run commands requiring superuser privileges unless explicitly asked.";

/// The description of `Bash`: it quotes both limits in seconds.
pub open spec fn bash_description(default_seconds: nat, max_seconds: nat) -> Seq<char> {
    BASH_DESCRIPTION_HEAD@ + decimal(default_seconds) + " and is capped at "@ + decimal(max_seconds)
        + BASH_DESCRIPTION_TAIL@
}

/// The parameters of `Bash`.
pub open spec fn bash_parameters(default_seconds: nat, max_seconds: nat) -> Tree {
    object_schema(
        seq![
            ("command"@, parameter_schema("string"@, "The command to execute."@)),
            (
                "cwd"@,
                parameter_schema(
                    "string"@,
                    "Directory to run the command in. Defaults to the working directory."@,
                ),
            ),
            (
                "timeout"@,
                parameter_schema(
                    "integer"@,
                    "Timeout in seconds (default "@ + decimal(default_seconds) + ", max "@
                        + decimal(max_seconds) + ")."@,
                ),
            ),
            (
                "description"@,
                parameter_schema("string"@, "Short description of what this command does."@),
            ),
        ],
        seq!["command"@],
    )
}

/// `Bash`, taking `timeout` in seconds and an optional `cwd`.
pub fn make_kimi_bash_tool(default_timeout_ms: u64, max_timeout_ms: u64) -> (r: ToolDefinition)
    ensures
        r.name@ == NativeTool::Shell.canonical(),
        r.description@ == bash_description(
            (default_timeout_ms / 1000) as nat,
            (max_timeout_ms / 1000) as nat,
        ),
        r.parameters.tree() == bash_parameters(
            (default_timeout_ms / 1000) as nat,
            (max_timeout_ms / 1000) as nat,
        ),
{
    let default_text = decimal_text(default_timeout_ms / 1000);
    let max_text = decimal_text(max_timeout_ms / 1000);
    let mut description = BASH_DESCRIPTION_HEAD.to_owned();
    description.append(default_text.as_str());
    description.append(" and is capped at ");
    description.append(max_text.as_str());
    description.append(BASH_DESCRIPTION_TAIL);
    let mut timeout = "Timeout in seconds (default ".to_owned();
    timeout.append(default_text.as_str());
    timeout.append(", max ");
    timeout.append(max_text.as_str());
    timeout.append(").");
    let mut properties: Vec<(String, Json)> = Vec::new();
    properties.push(("command".to_owned(), parameter("string", "The command to execute.")));
    properties.push(
        (
            "cwd".to_owned(),
            parameter(
                "string",
                "Directory to run the command in. Defaults to the working directory.",
            ),
        ),
    );
    properties.push(("timeout".to_owned(), parameter("integer", timeout.as_str())));
    properties.push(
        (
            "description".to_owned(),
            parameter("string", "Short description of what this command does."),
        ),
    );
    let required: Vec<&str> = vec!["command"];
    proof {
        let expected = bash_parameters(
            (default_timeout_ms / 1000) as nat,
            (max_timeout_ms / 1000) as nat,
        );
        assert(member_trees(properties@) =~= expected->Object_0[1].1->Object_0);
        assert(required@.map_values(|t: &str| t@) =~= seq!["command"@]);
    }
    definition(NativeTool::Shell, description.as_str(), parameters(properties, &required))
}

/// The timeout of a command in milliseconds: the seconds that were asked for, capped,
/// or the default.
pub open spec fn bash_timeout(seconds: Option<u64>, default_ms: u64, max_ms: u64) -> u64 {
    match seconds {
        Some(s) => if s * 1000 <= max_ms {
            (s * 1000) as u64
        } else {
            max_ms
        },
        None => default_ms,
    }
}

/// The non-negative integer in a member, if it fits in 64 bits.
pub open spec fn u64_at(args: Tree, key: Seq<char>) -> Option<u64> {
    match args.integer_at(key) {
        Some(n) => if 0 <= n <= u64::MAX {
            Some(n as u64)
        } else {
            None
        },
        None => None,
    }
}

/// The integer in a member, if it fits in 64 bits.
pub open spec fn i64_at(args: Tree, key: Seq<char>) -> Option<i64> {
    match args.integer_at(key) {
        Some(n) => if i64::MIN <= n <= i64::MAX {
            Some(n as i64)
        } else {
            None
        },
        None => None,
    }
}

fn text_argument(args: &Json, key: &str) -> (r: Option<String>)
    ensures
        match r {
            Some(text) => args.tree().text_at(key@) == Some(text@),
            None => args.tree().text_at(key@) is None,
        },
{
    match args.get_text(key) {
        Some(text) => Some(text.clone()),
        None => None,
    }
}

/// A command to run.
#[derive(Debug, PartialEq, Eq)]
pub struct BashCall {
    pub command: String,
    pub cwd: Option<String>,
    pub timeout_ms: u64,
}

/// Plans a `Bash` call. `command` is the required argument of that name, or the fault
/// with it.
pub fn plan_bash(
    args: &Json,
    command: Result<String, String>,
    default_timeout_ms: u64,
    max_timeout_ms: u64,
) -> (r: Result<BashCall, String>)
    ensures
        match (command, r) {
            (Err(fault), Err(error)) => error == fault,
            (Ok(text), Ok(call)) => {
                &&& call.command == text
                &&& match call.cwd {
                    Some(cwd) => args.tree().text_at("cwd"@) == Some(cwd@),
                    None => args.tree().text_at("cwd"@) is None,
                }
                &&& call.timeout_ms == bash_timeout(
                    u64_at(args.tree(), "timeout"@),
                    default_timeout_ms,
                    max_timeout_ms,
                )
            },
            _ => false,
        },
{
    let command = match command {
        Ok(text) => text,
        Err(fault) => {
            return Err(fault);
        },
    };
    let cwd = text_argument(args, "cwd");
    let timeout_ms: u64 = match args.get_u64("timeout") {
        Some(seconds) => {
            if seconds <= max_timeout_ms / 1000 {
                seconds * 1000
            } else {
                max_timeout_ms
            }
        },
        None => default_timeout_ms,
    };
    Ok(BashCall { command, cwd, timeout_ms })
}

/// No command runs longer than the cap, unless the default itself is longer.
pub proof fn timeouts_are_capped(seconds: Option<u64>, default_ms: u64, max_ms: u64)
    ensures
        seconds is Some ==> bash_timeout(seconds, default_ms, max_ms) <= max_ms,
        default_ms <= max_ms ==> bash_timeout(seconds, default_ms, max_ms) <= max_ms,
{
}

/// `text` with `line` on a line of its own behind it.
pub open spec fn with_line(text: Seq<char>, line: Seq<char>) -> Seq<char> {
    if text.len() == 0 {
        line
    } else {
        text + "\n"@ + line
    }
}

/// What a command is reported to have written: its output, then its error output if
/// there is any, then its exit code if that is not zero.
pub open spec fn command_report(
    stdout: Seq<char>,
    stderr: Seq<char>,
    exit_code: Option<i32>,
) -> Seq<char> {
    let output = if stderr.len() == 0 {
        stdout
    } else {
        with_line(stdout, stderr)
    };
    match exit_code {
        Some(code) => if code == 0 {
            output
        } else {
            with_line(output, "Command failed with exit code: "@ + signed_decimal(code as int))
        },
        None => output,
    }
}

fn add_line(text: String, line: &str) -> (r: String)
    ensures
        r@ == with_line(text@, line@),
{
    let mut r = text;
    if r.as_str().unicode_len() == 0 {
        line.to_owned()
    } else {
        r.append("\n");
        r.append(line);
        r
    }
}

/// What a command is reported to have written.
pub fn report_bash(stdout: String, stderr: &str, exit_code: Option<i32>) -> (r: String)
    ensures
        r@ == command_report(stdout@, stderr@, exit_code),
{
    let output = if stderr.unicode_len() == 0 {
        stdout
    } else {
        add_line(stdout, stderr)
    };
    match exit_code {
        Some(code) => {
            if code == 0 {
                output
            } else {
                let mut line = "Command failed with exit code: ".to_owned();
                line.append(signed_decimal_text(code as i64).as_str());
                add_line(output, line.as_str())
            }
        },
        None => output,
    }
}

// ---- Read ----

pub const READ_DESCRIPTION: &'static str = "Read a text file from the workspace.

Reading a file is also what clears it for writing: Edit and Write refuse a file that has not been \
read in this session.

- If you have a concrete path, call Read directly. Do not Glob or `ls` first to check that it \
exists — a missing path returns an error you can handle.
- When you need several files, emit multiple Read calls in one response rather than one per turn.
- Returns `<line-number>\\t<content>` per line. Drop the number and tab when taking text for an \
Edit `old_string`.
- `line_offset` is the 1-based first line to read. A NEGATIVE value reads from the end, so -100 \
returns the last 100 lines.
- `n_lines` defaults to 2000 lines.
- Use Bash or an MCP tool for binary formats; this tool reads text.";

/// The parameters of `Read`.
pub open spec fn read_parameters() -> Tree {
    object_schema(
        seq![
            ("path"@, parameter_schema("string"@, "Path to the file to read."@)),
            (
                "line_offset"@,
                parameter_schema(
                    "integer"@,
                    "1-based first line to read. Negative reads from the end of the file (-100 reads the last 100 lines)."@,
                ),
            ),
            (
                "n_lines"@,
                parameter_schema("integer"@, "Number of lines to read (default 2000)."@),
            ),
        ],
        seq!["path"@],
    )
}

/// `Read`, where a negative `line_offset` reads from the end of the file.
pub fn make_kimi_read_tool() -> (r: ToolDefinition)
    ensures
        r.name@ == NativeTool::ReadFile.canonical(),
        r.description@ == READ_DESCRIPTION@,
        r.parameters.tree() == read_parameters(),
{
    let mut properties: Vec<(String, Json)> = Vec::new();
    properties.push(("path".to_owned(), parameter("string", "Path to the file to read.")));
    properties.push(
        (
            "line_offset".to_owned(),
            parameter(
                "integer",
                "1-based first line to read. Negative reads from the end of the file (-100 reads the last 100 lines).",
            ),
        ),
    );
    properties.push(
        ("n_lines".to_owned(), parameter("integer", "Number of lines to read (default 2000).")),
    );
    let required: Vec<&str> = vec!["path"];
    proof {
        assert(member_trees(properties@) =~= read_parameters()->Object_0[1].1->Object_0);
        assert(required@.map_values(|t: &str| t@) =~= seq!["path"@]);
    }
    definition(NativeTool::ReadFile, READ_DESCRIPTION, parameters(properties, &required))
}

/// Which lines of a file to read: the first one, counted from 1, and how many.
#[derive(Debug, Clone, Copy, PartialEq, Eq, Structural)]
pub struct LineRange {
    pub start: Option<usize>,
    pub limit: Option<usize>,
}

/// How a file is read.
#[derive(Debug, Clone, Copy, PartialEq, Eq, Structural)]
pub enum ReadPlan {
    /// The lines are known.
    Lines(LineRange),
    /// The file's lines have to be counted first: the last `from_end` are wanted, or
    /// `n_lines` from where those begin.
    FromEnd { from_end: usize, n_lines: Option<usize> },
}

/// How a file is read, by the line offset and the number of lines that were asked for.
pub open spec fn read_plan(line_offset: Option<i64>, n_lines: Option<usize>) -> Result<
    ReadPlan,
    Seq<char>,
> {
    match line_offset {
        None => Ok(
            ReadPlan::Lines(
                LineRange {
                    start: None,
                    limit: match n_lines {
                        Some(n) => Some(n),
                        None => Some(DEFAULT_READ_LINES),
                    },
                },
            ),
        ),
        Some(offset) => if offset < 0 {
            if -offset > usize::MAX {
                Err("line_offset is too large"@)
            } else {
                Ok(ReadPlan::FromEnd { from_end: (-offset) as usize, n_lines })
            }
        } else if offset > usize::MAX {
            Err("line_offset must fit in usize"@)
        } else {
            Ok(ReadPlan::Lines(LineRange { start: Some(offset as usize), limit: n_lines }))
        },
    }
}

/// Plans a `Read` call. `path` and `n_lines` are the arguments of those names, or the
/// faults with them; the fault with the path comes first.
pub fn plan_read(
    args: &Json,
    path: Result<String, String>,
    n_lines: Result<Option<usize>, String>,
) -> (r: Result<(String, ReadPlan), String>)
    ensures
        match (path, n_lines) {
            (Err(fault), _) => r == Err::<(String, ReadPlan), String>(fault),
            (Ok(_), Err(fault)) => r == Err::<(String, ReadPlan), String>(fault),
            (Ok(p), Ok(n)) => match read_plan(i64_at(args.tree(), "line_offset"@), n) {
                Ok(plan) => r == Ok::<(String, ReadPlan), String>((p, plan)),
                Err(message) => r matches Err(error) && error@ == message,
            },
        },
{
    let path = match path {
        Ok(path) => path,
        Err(fault) => {
            return Err(fault);
        },
    };
    let n_lines = match n_lines {
        Ok(n_lines) => n_lines,
        Err(fault) => {
            return Err(fault);
        },
    };
    match args.get_i64("line_offset") {
        None => {
            let limit = match n_lines {
                Some(n) => Some(n),
                None => Some(DEFAULT_READ_LINES),
            };
            Ok((path, ReadPlan::Lines(LineRange { start: None, limit })))
        },
        Some(offset) => {
            if offset < 0 {
                let magnitude: u64 = (-(offset as i128)) as u64;
                if magnitude > usize::MAX as u64 {
                    return Err("line_offset is too large".to_owned());
                }
                Ok((path, ReadPlan::FromEnd { from_end: magnitude as usize, n_lines }))
            } else {
                let magnitude: u64 = offset as u64;
                if magnitude > usize::MAX as u64 {
                    return Err("line_offset must fit in usize".to_owned());
                }
                Ok(
                    (
                        path,
                        ReadPlan::Lines(LineRange { start: Some(magnitude as usize), limit: n_lines }),
                    ),
                )
            }
        },
    }
}

/// How many lines a text has: a newline ends a line, and what stands behind the last
/// newline is a line too unless it is empty.
pub open spec fn line_count(text: Seq<char>) -> nat {
    text.filter(|c: char| c == '\n').len() + (if text.len() > 0 && text.last() != '\n' {
        1nat
    } else {
        0nat
    })
}

/// How many lines a text has.
pub fn count_lines(text: &str) -> (n: usize)
    ensures
        n == line_count(text@),
{
    let chars = characters(text);
    let len: usize = chars.len();
    let mut newlines: usize = 0;
    let mut i: usize = 0;
    let ghost is_newline = |c: char| c == '\n';
    proof {
        reveal(Seq::filter);
        assert(text@.take(0).filter(is_newline).len() == 0);
    }
    while i < len
        invariant
            len == chars@.len(),
            chars@ == text@,
            i <= len,
            newlines <= i,
            newlines < i || i == 0 || chars@[i - 1] == '\n',
            newlines == text@.take(i as int).filter(is_newline).len(),
            is_newline == (|c: char| c == '\n'),
        decreases len - i,
    {
        proof {
            reveal(Seq::filter);
            assert(text@.take(i + 1).drop_last() == text@.take(i as int));
            assert(text@.take(i + 1).last() == chars@[i as int]);
        }
        if chars[i] == '\n' {
            newlines += 1;
        }
        i += 1;
    }
    proof {
        assert(text@.take(len as int) == text@);
    }
    if len > 0 && chars[len - 1] != '\n' {
        newlines + 1
    } else {
        newlines
    }
}

/// The lines to read where the last `from_end` of `total` are wanted.
pub open spec fn tail_range(total: usize, from_end: usize, n_lines: Option<usize>) -> LineRange {
    LineRange {
        start: Some(
            if from_end < total {
                if total - from_end + 1 <= usize::MAX {
                    (total - from_end + 1) as usize
                } else {
                    usize::MAX
                }
            } else {
                1
            },
        ),
        limit: match n_lines {
            Some(n) => Some(n),
            None => Some(from_end),
        },
    }
}

/// The lines to read once those of the file have been counted.
pub fn after_count(total: usize, from_end: usize, n_lines: Option<usize>) -> (r: LineRange)
    ensures
        r == tail_range(total, from_end, n_lines),
{
    let before: usize = if from_end < total {
        total - from_end
    } else {
        0
    };
    let start: usize = if before < usize::MAX {
        before + 1
    } else {
        before
    };
    let limit = match n_lines {
        Some(n) => Some(n),
        None => Some(from_end),
    };
    LineRange { start: Some(start), limit }
}

/// A negative offset reads the last lines: from the start that was chosen to the end
/// of the file there are as many lines as were asked for, or all of them.
pub proof fn negative_offsets_read_the_last_lines(total: usize, from_end: usize)
    requires
        0 < from_end,
    ensures
        tail_range(total, from_end, None).limit == Some(from_end),
        total - tail_range(total, from_end, None).start->0 + 1 == (if from_end < total {
            from_end as int
        } else {
            total as int
        }),
{
}

// ---- Write ----

pub const WRITE_DESCRIPTION: &'static str = "Create, append to, or replace a file.

Read an existing file with Read before writing to it — this workspace refuses writes to files \
that have not been read, and the call will fail.

- `mode` defaults to `overwrite`, which replaces the whole file. `append` adds to the end without \
inserting a newline.
- Write is NOT for incremental changes to an existing file, however small. Use Edit instead: \
overwrite replaces everything you did not restate.
- Use Write when the file does not exist, or when you intend a complete replacement.
- Do not create documentation files that were not asked for.";

/// The parameters of `Write`.
pub open spec fn write_parameters() -> Tree {
    object_schema(
        seq![
            ("path"@, parameter_schema("string"@, "Path to the file to write."@)),
            ("content"@, parameter_schema("string"@, "Content to write."@)),
            (
                "mode"@,
                choice_schema(
                    seq!["overwrite"@, "append"@],
                    "Whether to replace the file or append to it (default overwrite)."@,
                ),
            ),
        ],
        seq!["path"@, "content"@],
    )
}

/// `Write`, with Kimi Code's `mode` so it can append.
pub fn make_kimi_write_tool() -> (r: ToolDefinition)
    ensures
        r.name@ == NativeTool::WriteFile.canonical(),
        r.description@ == WRITE_DESCRIPTION@,
        r.parameters.tree() == write_parameters(),
{
    let mut properties: Vec<(String, Json)> = Vec::new();
    properties.push(("path".to_owned(), parameter("string", "Path to the file to write.")));
    properties.push(("content".to_owned(), parameter("string", "Content to write.")));
    let modes: Vec<&str> = vec!["overwrite", "append"];
    properties.push(
        (
            "mode".to_owned(),
            choice(&modes, "Whether to replace the file or append to it (default overwrite)."),
        ),
    );
    let required: Vec<&str> = vec!["path", "content"];
    proof {
        assert(modes@.map_values(|t: &str| t@) =~= seq!["overwrite"@, "append"@]);
        assert(member_trees(properties@) =~= write_parameters()->Object_0[1].1->Object_0);
        assert(required@.map_values(|t: &str| t@) =~= seq!["path"@, "content"@]);
    }
    definition(NativeTool::WriteFile, WRITE_DESCRIPTION, parameters(properties, &required))
}

/// A file to write.
#[derive(Debug, PartialEq, Eq)]
pub struct WriteCall {
    pub path: String,
    pub content: String,
    pub append: bool,
}

/// The mode that was asked for.
pub open spec fn write_mode(args: Tree) -> Seq<char> {
    match args.text_at("mode"@) {
        Some(mode) => mode,
        None => "overwrite"@,
    }
}

/// Plans a `Write` call. `path` and `content` are the required arguments of those
/// names, or the faults with them; faults come in that order, before that of the mode.
pub fn plan_write(
    args: &Json,
    path: Result<String, String>,
    content: Result<String, String>,
) -> (r: Result<WriteCall, String>)
    ensures
        match (path, content) {
            (Err(fault), _) => r == Err::<WriteCall, String>(fault),
            (Ok(_), Err(fault)) => r == Err::<WriteCall, String>(fault),
            (Ok(p), Ok(c)) => {
                let mode = write_mode(args.tree());
                if mode == "overwrite"@ {
                    r == Ok::<WriteCall, String>(WriteCall { path: p, content: c, append: false })
                } else if mode == "append"@ {
                    r == Ok::<WriteCall, String>(WriteCall { path: p, content: c, append: true })
                } else {
                    r matches Err(error) && error@ == "Invalid mode `"@ + mode
                        + "` (expected overwrite|append)"@
                }
            },
        },
{
    let path = match path {
        Ok(path) => path,
        Err(fault) => {
            return Err(fault);
        },
    };
    let content = match content {
        Ok(content) => content,
        Err(fault) => {
            return Err(fault);
        },
    };
    let mode = match text_argument(args, "mode") {
        Some(mode) => mode,
        None => "overwrite".to_owned(),
    };
    if same_text(mode.as_str(), "overwrite") {
        Ok(WriteCall { path, content, append: false })
    } else if same_text(mode.as_str(), "append") {
        Ok(WriteCall { path, content, append: true })
    } else {
        let mut error = "Invalid mode `".to_owned();
        error.append(mode.as_str());
        error.append("` (expected overwrite|append)");
        Err(error)
    }
}

/// What the file is to hold after the call. `existing` is what it holds now, where that
/// could be read.
pub fn write_payload(call: &WriteCall, existing: Option<String>) -> (r: String)
    ensures
        r@ == (if call.append {
            (match existing {
                Some(text) => text@,
                None => Seq::empty(),
            }) + call.content@
        } else {
            call.content@
        }),
{
    if call.append {
        let mut r = match existing {
            Some(text) => text,
            None => String::new(),
        };
        r.append(call.content.as_str());
        r
    } else {
        call.content.clone()
    }
}

/// What a `Write` call reports.
pub fn report_write(call: &WriteCall) -> (r: String)
    ensures
        r@ == "Wrote "@ + call.path@,
{
    let mut r = "Wrote ".to_owned();
    r.append(call.path.as_str());
    r
}

// ---- Grep ----

/// Output shapes of `Grep`.
#[derive(Debug, Clone, Copy, PartialEq, Eq, Structural)]
pub enum GrepOutputMode {
    Content,
    FilesWithMatches,
    Count,
}

/// The output mode that a word names.
pub open spec fn named_mode(word: Seq<char>) -> Option<GrepOutputMode> {
    if word == "content"@ {
        Some(GrepOutputMode::Content)
    } else if word == "files_with_matches"@ {
        Some(GrepOutputMode::FilesWithMatches)
    } else if word == "count"@ {
        Some(GrepOutputMode::Count)
    } else {
        None
    }
}

/// The output mode that was asked for, `content` where none was; or the message that
/// there is none of that name.
pub open spec fn output_mode(value: Option<Seq<char>>) -> Result<GrepOutputMode, Seq<char>> {
    match value {
        None => Ok(GrepOutputMode::Content),
        Some(word) => match named_mode(word) {
            Some(mode) => Ok(mode),
            None => Err(
                "Invalid output_mode `"@ + word
                    + "` (expected content|files_with_matches|count)"@,
            ),
        },
    }
}

impl GrepOutputMode {
    /// The output mode that was asked for, `content` where none was.
    pub fn parse(value: Option<&str>) -> (r: Result<GrepOutputMode, String>)
        ensures
            match (
                r,
                output_mode(
                    match value {
                        Some(word) => Some(word@),
                        None => None,
                    },
                ),
            ) {
                (Ok(mode), Ok(expected)) => mode == expected,
                (Err(error), Err(message)) => error@ == message,
                _ => false,
            },
    {
        match value {
            None => Ok(GrepOutputMode::Content),
            Some(word) => {
                if same_text(word, "content") {
                    Ok(GrepOutputMode::Content)
                } else if same_text(word, "files_with_matches") {
                    Ok(GrepOutputMode::FilesWithMatches)
                } else if same_text(word, "count") {
                    Ok(GrepOutputMode::Count)
                } else {
                    let mut error = "Invalid output_mode `".to_owned();
                    error.append(word);
                    error.append("` (expected content|files_with_matches|count)");
                    Err(error)
                }
            },
        }
    }
}

/// How many digits stand at the front of `s`.
pub open spec fn digit_run(s: Seq<char>) -> nat
    decreases s.len(),
{
    if s.len() > 0 && '0' <= s[0] <= '9' {
        1 + digit_run(s.drop_first())
    } else {
        0
    }
}

/// The line-number field of a result line begins at `at`: a colon, digits, a colon.
pub open spec fn line_field_at(line: Seq<char>, at: int) -> bool {
    let digits = digit_run(line.skip(at + 1));
    &&& 0 <= at < line.len()
    &&& line[at] == ':'
    &&& digits > 0
    &&& at + 1 + digits < line.len()
    &&& line[at + 1 + digits] == ':'
}

/// Where the first line-number field from `from` on begins.
pub open spec fn line_field(line: Seq<char>, from: int) -> Option<int>
    decreases line.len() - from,
{
    if from < 0 || from >= line.len() {
        None
    } else if line_field_at(line, from) {
        Some(from)
    } else {
        line_field(line, from + 1)
    }
}

/// The file that a result line speaks of: what stands before its line-number field,
/// or the path that was searched.
pub open spec fn result_path(line: Seq<char>, searched: Seq<char>) -> Seq<char> {
    match line_field(line, 0) {
        Some(at) => line.take(at),
        None => searched,
    }
}

fn count_digits(chars: &Vec<char>, from: usize) -> (n: usize)
    requires
        from <= chars@.len(),
    ensures
        n == digit_run(chars@.skip(from as int)),
        from + n <= chars@.len(),
{
    let mut i: usize = from;
    let ghost rest = chars@.skip(from as int);
    while i < chars.len() && '0' <= chars[i] && chars[i] <= '9'
        invariant
            from <= i <= chars@.len(),
            rest == chars@.skip(from as int),
            digit_run(rest) == (i - from) + digit_run(chars@.skip(i as int)),
        decreases chars@.len() - i,
    {
        proof {
            assert(chars@.skip(i as int).drop_first() == chars@.skip(i + 1));
        }
        i += 1;
    }
    i - from
}

/// The file that a result line speaks of. A search of a directory gives
/// `<path>:<line>:<content>`; one of a single file leaves the path out.
pub fn grep_result_path<'a>(line: &'a str, searched: &'a str) -> (r: &'a str)
    ensures
        r@ == result_path(line@, searched@),
{
    let chars = characters(line);
    let n: usize = chars.len();
    let mut i: usize = 0;
    while i < n
        invariant
            n == chars@.len(),
            chars@ == line@,
            i <= n,
            line_field(line@, 0) == line_field(line@, i as int),
        decreases n - i,
    {
        if chars[i] == ':' {
            let digits: usize = count_digits(&chars, i + 1);
            if digits > 0 && i + 1 + digits < n && chars[i + 1 + digits] == ':' {
                let r = line.substring_char(0, i);
                proof {
                    assert(r@ =~= line@.take(i as int));
                }
                return r;
            }
        }
        i += 1;
    }
    searched
}

/// The texts without those that came before, in order.
pub open spec fn distinct(items: Seq<Seq<char>>) -> Seq<Seq<char>>
    decreases items.len(),
{
    if items.len() == 0 {
        Seq::empty()
    } else {
        let before = distinct(items.drop_last());
        if before.contains(items.last()) {
            before
        } else {
            before.push(items.last())
        }
    }
}

/// How often a text stands among `items`.
pub open spec fn occurrences(items: Seq<Seq<char>>, text: Seq<char>) -> nat
    decreases items.len(),
{
    if items.len() == 0 {
        0
    } else {
        occurrences(items.drop_last(), text) + (if items.last() == text {
            1nat
        } else {
            0nat
        })
    }
}

/// The files that the result lines speak of, line by line.
pub open spec fn result_paths(lines: Seq<Seq<char>>, searched: Seq<char>) -> Seq<Seq<char>> {
    lines.map_values(|line: Seq<char>| result_path(line, searched))
}

/// The results in the shape that was asked for: the lines, the files, or the files with
/// the number of their matches.
pub open spec fn shaped(
    mode: GrepOutputMode,
    lines: Seq<Seq<char>>,
    searched: Seq<char>,
) -> Seq<Seq<char>> {
    let paths = result_paths(lines, searched);
    match mode {
        GrepOutputMode::Content => lines,
        GrepOutputMode::FilesWithMatches => distinct(paths),
        GrepOutputMode::Count => distinct(paths).map_values(
            |path: Seq<char>| path + ":"@ + decimal(occurrences(paths, path)),
        ),
    }
}

/// The results without the first `offset`, and of the rest no more than `limit`.
pub open spec fn page(
    results: Seq<Seq<char>>,
    offset: nat,
    limit: Option<usize>,
) -> Seq<Seq<char>> {
    let rest = if offset <= results.len() {
        results.skip(offset as int)
    } else {
        Seq::empty()
    };
    match limit {
        Some(n) => if n < rest.len() {
            rest.take(n as int)
        } else {
            rest
        },
        None => rest,
    }
}

/// What a `Grep` call reports.
pub open spec fn grep_report(results: Seq<Seq<char>>) -> Seq<char> {
    if results.len() == 0 {
        "No matches found"@
    } else {
        joined(results, "\n"@)
    }
}

pub const KIMI_GREP_DESCRIPTION: &'static str = "Search file contents with a regular expression.

Use Grep when looking for unknown content or an unknown location. If you already know the path, \
use Read instead. Prefer this over running `grep` or `rg` through Bash: it caps its output, so it \
will not flood the conversation.

- Backed by ripgrep when available and POSIX `grep` otherwise, so keep patterns portable across \
both rather than relying on ripgrep-only syntax.
- `output_mode` selects what comes back: `content` (matching lines, the default), \
`files_with_matches` (just the paths), or `count` (matches per file).
- `head_limit` caps how many results are returned and `offset` skips that many first, so you can \
page through a large result set.
- `glob` limits which files are searched; `case_insensitive` folds case.";

/// The parameters of `Grep`.
pub open spec fn grep_parameters() -> Tree {
    object_schema(
        seq![
            ("pattern"@, parameter_schema("string"@, "Regular expression to search for."@)),
            (
                "path"@,
                parameter_schema(
                    "string"@,
                    "Directory or file to search. Defaults to the working directory."@,
                ),
            ),
            ("glob"@, parameter_schema("string"@, "Only search files matching this glob."@)),
            (
                "output_mode"@,
                choice_schema(
                    seq!["content"@, "files_with_matches"@, "count"@],
                    "Shape of the results (default content)."@,
                ),
            ),
            ("head_limit"@, parameter_schema("integer"@, "Return at most this many results."@)),
            (
                "offset"@,
                parameter_schema("integer"@, "Skip this many results before returning."@),
            ),
            ("case_insensitive"@, parameter_schema("boolean"@, "Fold case when matching."@)),
        ],
        seq!["pattern"@],
    )
}

/// `Grep` with Kimi Code's `output_mode`, `head_limit` and `offset`.
pub fn make_kimi_grep_tool() -> (r: ToolDefinition)
    ensures
        r.name@ == NativeTool::Grep.canonical(),
        r.description@ == KIMI_GREP_DESCRIPTION@,
        r.parameters.tree() == grep_parameters(),
{
    let mut properties: Vec<(String, Json)> = Vec::new();
    properties.push(
        ("pattern".to_owned(), parameter("string", "Regular expression to search for.")),
    );
    properties.push(
        (
            "path".to_owned(),
            parameter("string", "Directory or file to search. Defaults to the working directory."),
        ),
    );
    properties.push(
        ("glob".to_owned(), parameter("string", "Only search files matching this glob.")),
    );
    let modes: Vec<&str> = vec!["content", "files_with_matches", "count"];
    properties.push(
        ("output_mode".to_owned(), choice(&modes, "Shape of the results (default content).")),
    );
    properties.push(
        ("head_limit".to_owned(), parameter("integer", "Return at most this many results.")),
    );
    properties.push(
        ("offset".to_owned(), parameter("integer", "Skip this many results before returning.")),
    );
    properties.push(
        ("case_insensitive".to_owned(), parameter("boolean", "Fold case when matching.")),
    );
    let required: Vec<&str> = vec!["pattern"];
    proof {
        assert(modes@.map_values(|t: &str| t@) =~= seq![
            "content"@,
            "files_with_matches"@,
            "count"@,
        ]);
        assert(member_trees(properties@) =~= grep_parameters()->Object_0[1].1->Object_0);
        assert(required@.map_values(|t: &str| t@) =~= seq!["pattern"@]);
    }
    definition(NativeTool::Grep, KIMI_GREP_DESCRIPTION, parameters(properties, &required))
}

/// A search to make, and the shape its results are wanted in.
#[derive(Debug, PartialEq, Eq)]
pub struct GrepCall {
    pub pattern: String,
    pub path: String,
    pub mode: GrepOutputMode,
    pub head_limit: Option<usize>,
    pub offset: usize,
    pub glob_filter: Option<String>,
    pub case_insensitive: bool,
    /// How many lines the search may stop after. Only where results and lines are the
    /// same thing: a cap on lines would undercount files.
    pub max_results: Option<usize>,
}

/// The cap on the lines of a search.
pub open spec fn line_cap(
    mode: GrepOutputMode,
    head_limit: Option<usize>,
    offset: usize,
) -> Option<usize> {
    match (mode, head_limit) {
        (GrepOutputMode::Content, Some(n)) => if n + offset <= usize::MAX {
            Some((n + offset) as usize)
        } else {
            Some(usize::MAX)
        },
        _ => None,
    }
}

/// The call is the one that the arguments ask for.
pub open spec fn asks_for(
    call: GrepCall,
    args: Tree,
    pattern: String,
    mode: GrepOutputMode,
    head_limit: Option<usize>,
    offset: Option<usize>,
) -> bool {
    &&& call.pattern == pattern
    &&& call.path@ == (match args.text_at("path"@) {
        Some(path) => path,
        None => "."@,
    })
    &&& call.mode == mode
    &&& call.head_limit == head_limit
    &&& call.offset == (match offset {
        Some(n) => n,
        None => 0,
    })
    &&& match call.glob_filter {
        Some(glob) => args.text_at("glob"@) == Some(glob@),
        None => args.text_at("glob"@) is None,
    }
    &&& call.case_insensitive == (args.bool_at("case_insensitive"@) == Some(true))
    &&& call.max_results == line_cap(mode, head_limit, call.offset)
}

/// Plans a `Grep` call. `pattern`, `head_limit` and `offset` are the arguments of those
/// names, or the faults with them. Faults come in this order: the pattern, the output
/// mode, the head limit, the offset.
pub fn plan_grep(
    args: &Json,
    pattern: Result<String, String>,
    head_limit: Result<Option<usize>, String>,
    offset: Result<Option<usize>, String>,
) -> (r: Result<GrepCall, String>)
    ensures
        match pattern {
            Err(fault) => r == Err::<GrepCall, String>(fault),
            Ok(p) => match output_mode(args.tree().text_at("output_mode"@)) {
                Err(message) => r matches Err(error) && error@ == message,
                Ok(mode) => match (head_limit, offset) {
                    (Err(fault), _) => r == Err::<GrepCall, String>(fault),
                    (Ok(_), Err(fault)) => r == Err::<GrepCall, String>(fault),
                    (Ok(limit), Ok(skip)) => r matches Ok(call) && asks_for(
                        call,
                        args.tree(),
                        p,
                        mode,
                        limit,
                        skip,
                    ),
                },
            },
        },
{
    let pattern = match pattern {
        Ok(pattern) => pattern,
        Err(fault) => {
            return Err(fault);
        },
    };
    let path = match text_argument(args, "path") {
        Some(path) => path,
        None => ".".to_owned(),
    };
    let word = match args.get_text("output_mode") {
        Some(word) => Some(word.as_str()),
        None => None,
    };
    let mode = match GrepOutputMode::parse(word) {
        Ok(mode) => mode,
        Err(error) => {
            return Err(error);
        },
    };
    let head_limit = match head_limit {
        Ok(limit) => limit,
        Err(fault) => {
            return Err(fault);
        },
    };
    let offset: usize = match offset {
        Ok(Some(n)) => n,
        Ok(None) => 0,
        Err(fault) => {
            return Err(fault);
        },
    };
    let glob_filter = text_argument(args, "glob");
    let case_insensitive = match args.get_bool("case_insensitive") {
        Some(b) => b,
        None => false,
    };
    let max_results = match mode {
        GrepOutputMode::Content => match head_limit {
            Some(n) => {
                if n <= usize::MAX - offset {
                    Some(n + offset)
                } else {
                    Some(usize::MAX)
                }
            },
            None => None,
        },
        _ => None,
    };
    Ok(
        GrepCall {
            pattern,
            path,
            mode,
            head_limit,
            offset,
            glob_filter,
            case_insensitive,
            max_results,
        },
    )
}

fn find_text(items: &Vec<String>, text: &str) -> (r: Option<usize>)
    ensures
        match r {
            Some(i) => i < items@.len() && items@[i as int]@ == text@,
            None => !views(items@).contains(text@),
        },
{
    let mut i: usize = 0;
    while i < items.len()
        invariant
            i <= items@.len(),
            forall|j: int| 0 <= j < i ==> (#[trigger] items@[j])@ != text@,
        decreases items@.len() - i,
    {
        if same_text(items[i].as_str(), text) {
            return Some(i);
        }
        i += 1;
    }
    proof {
        if views(items@).contains(text@) {
            let k = choose|k: int| 0 <= k < views(items@).len() && views(items@)[k] == text@;
            assert(items@[k]@ == text@);
        }
    }
    None
}

/// The files that the lines speak of, each once in the order of its first line, with
/// the number of its lines.
fn tally(lines: &Vec<String>, searched: &str) -> (r: (Vec<String>, Vec<usize>))
    ensures
        r.0@.len() == r.1@.len(),
        views(r.0@) == distinct(result_paths(views(lines@), searched@)),
        forall|k: int|
            0 <= k < r.1@.len() ==> #[trigger] r.1@[k] == occurrences(
                result_paths(views(lines@), searched@),
                r.0@[k]@,
            ),
{
    let mut files: Vec<String> = Vec::new();
    let mut counts: Vec<usize> = Vec::new();
    let ghost all = result_paths(views(lines@), searched@);
    let mut i: usize = 0;
    proof {
        assert(all.take(0) =~= Seq::<Seq<char>>::empty());
        assert(views(files@) =~= Seq::<Seq<char>>::empty());
    }
    while i < lines.len()
        invariant
            i <= lines@.len(),
            all == result_paths(views(lines@), searched@),
            files@.len() == counts@.len(),
            views(files@) == distinct(all.take(i as int)),
            forall|k: int|
                0 <= k < counts@.len() ==> #[trigger] counts@[k] == occurrences(
                    all.take(i as int),
                    files@[k]@,
                ),
            forall|k: int| 0 <= k < counts@.len() ==> #[trigger] counts@[k] <= i,
        decreases lines@.len() - i,
    {
        let path = grep_result_path(lines[i].as_str(), searched);
        let ghost before = all.take(i as int);
        let ghost after = all.take(i + 1);
        let ghost old_files = files@;
        let ghost old_counts = counts@;
        proof {
            assert(views(lines@)[i as int] == lines@[i as int]@);
            assert(all[i as int] == path@);
            assert(after.drop_last() =~= before);
            assert(after.last() == path@);
            lemma_distinct(before);
        }
        match find_text(&files, path) {
            Some(k) => {
                proof {
                    assert(views(files@)[k as int] == path@);
                    assert(distinct(before).contains(path@));
                }
                let count: usize = counts[k];
                counts.set(k, count + 1);
                proof {
                    assert forall|m: int| 0 <= m < counts@.len() implies #[trigger] counts@[m]
                        == occurrences(after, files@[m]@) by {
                        assert(old_counts[m] == occurrences(before, files@[m]@));
                        assert(views(files@)[m] == files@[m]@);
                        if m != k && files@[m]@ == path@ {
                            assert(views(files@)[m] == views(files@)[k as int]);
                        }
                    }
                }
            },
            None => {
                proof {
                    lemma_absent(before, path@);
                }
                files.push(path.to_owned());
                counts.push(1);
                proof {
                    assert(views(files@) =~= views(old_files).push(path@));
                    assert forall|m: int| 0 <= m < counts@.len() implies #[trigger] counts@[m]
                        == occurrences(after, files@[m]@) by {
                        if m < old_counts.len() {
                            assert(old_counts[m] == occurrences(before, files@[m]@));
                            assert(views(old_files)[m] == files@[m]@);
                            if files@[m]@ == path@ {
                                assert(views(old_files).contains(path@));
                            }
                        }
                    }
                }
            },
        }
        i += 1;
    }
    proof {
        assert(all.take(all.len() as int) =~= all);
    }
    (files, counts)
}

/// No text stands twice among the distinct ones.
proof fn lemma_distinct(items: Seq<Seq<char>>)
    ensures
        distinct(items).no_duplicates(),
    decreases items.len(),
{
    if items.len() > 0 {
        lemma_distinct(items.drop_last());
    }
}

/// A text that is not among the distinct ones does not occur.
proof fn lemma_absent(items: Seq<Seq<char>>, text: Seq<char>)
    ensures
        !distinct(items).contains(text) <==> occurrences(items, text) == 0,
    decreases items.len(),
{
    if items.len() > 0 {
        lemma_absent(items.drop_last(), text);
        let before = distinct(items.drop_last());
        let pushed = before.push(items.last());
        assert(pushed.contains(text) <==> before.contains(text) || items.last() == text) by {
            if before.contains(text) {
                let k = choose|k: int| 0 <= k < before.len() && before[k] == text;
                assert(pushed[k] == text);
            }
            assert(pushed[before.len() as int] == items.last());
        }
    }
}

/// Puts the lines that a search gave into the shape that was asked for.
pub fn report_grep(call: &GrepCall, lines: Vec<String>) -> (r: String)
    ensures
        r@ == grep_report(
            page(
                shaped(call.mode, views(lines@), call.path@),
                call.offset as nat,
                call.head_limit,
            ),
        ),
{
    let ghost expected = shaped(call.mode, views(lines@), call.path@);
    let results: Vec<String> = match call.mode {
        GrepOutputMode::Content => lines,
        GrepOutputMode::FilesWithMatches => tally(&lines, call.path.as_str()).0,
        GrepOutputMode::Count => {
            let (files, counts) = tally(&lines, call.path.as_str());
            let ghost paths = result_paths(views(lines@), call.path@);
            let mut out: Vec<String> = Vec::new();
            let mut i: usize = 0;
            while i < files.len()
                invariant
                    i <= files@.len(),
                    files@.len() == counts@.len(),
                    out@.len() == i,
                    forall|k: int|
                        0 <= k < counts@.len() ==> #[trigger] counts@[k] == occurrences(
                            paths,
                            files@[k]@,
                        ),
                    forall|k: int|
                        0 <= k < i ==> (#[trigger] out@[k])@ == files@[k]@ + ":"@ + decimal(
                            occurrences(paths, files@[k]@),
                        ),
                decreases files@.len() - i,
            {
                let mut line = files[i].clone();
                line.append(":");
                line.append(decimal_text(counts[i] as u64).as_str());
                out.push(line);
                i += 1;
            }
            proof {
                assert forall|k: int| 0 <= k < out@.len() implies views(out@)[k] == expected[k] by {
                    assert(views(files@)[k] == files@[k]@);
                    assert(views(files@)[k] == distinct(paths)[k]);
                }
                assert(views(files@).len() == distinct(paths).len());
                assert(views(out@) =~= expected);
            }
            out
        },
    };
    let n: usize = results.len();
    let from: usize = if call.offset <= n {
        call.offset
    } else {
        n
    };
    let to: usize = match call.head_limit {
        Some(limit) => {
            if limit < n - from {
                from + limit
            } else {
                n
            }
        },
        None => n,
    };
    let mut shown: Vec<String> = Vec::new();
    let mut i: usize = from;
    while i < to
        invariant
            from <= i <= to <= n,
            n == results@.len(),
            shown@ == results@.subrange(from as int, i as int),
        decreases to - i,
    {
        shown.push(results[i].clone());
        i += 1;
        proof {
            assert(results@.subrange(from as int, i as int) =~= results@.subrange(
                from as int,
                i - 1,
            ).push(results@[i - 1]));
        }
    }
    proof {
        assert(views(results@) =~= expected);
        assert(views(shown@) =~= page(expected, call.offset as nat, call.head_limit));
    }
    if shown.len() == 0 {
        "No matches found".to_owned()
    } else {
        join(&shown, "\n")
    }
}

/// A search for matching lines may stop after the cap: the page that is shown is the
/// same as that of the full search.
pub proof fn capping_the_search_keeps_the_page(
    lines: Seq<Seq<char>>,
    head_limit: Option<usize>,
    offset: usize,
    cap: usize,
)
    requires
        line_cap(GrepOutputMode::Content, head_limit, offset) == Some(cap),
        cap <= lines.len() <= usize::MAX,
    ensures
        page(lines.take(cap as int), offset as nat, head_limit) == page(
            lines,
            offset as nat,
            head_limit,
        ),
{
    assert(page(lines.take(cap as int), offset as nat, head_limit) =~= page(
        lines,
        offset as nat,
        head_limit,
    ));
}

/// The files with matches are listed once each, and a file is listed exactly if it
/// occurs.
pub proof fn every_file_with_a_match_is_listed_once(paths: Seq<Seq<char>>, path: Seq<char>)
    ensures
        distinct(paths).no_duplicates(),
        distinct(paths).contains(path) <==> occurrences(paths, path) > 0,
{
    lemma_distinct(paths);
    lemma_absent(paths, path);
}

// ---- What the tools are for ----

/// A page of the results: result `i` of it is result `offset + i` of them all, with a
/// limit and without. Without one the page goes to the last result, with one it stops
/// after that many.
pub proof fn pages_begin_at_their_offset(
    results: Seq<Seq<char>>,
    offset: nat,
    limit: Option<usize>,
    i: int,
)
    ensures
        0 <= i < page(results, offset, limit).len() ==> page(results, offset, limit)[i]
            == results[offset + i],
        limit is None ==> page(results, offset, limit).len() == (if offset <= results.len() {
            results.len() - offset
        } else {
            0
        }),
        limit matches Some(n) ==> page(results, offset, limit).len() == (if offset + n
            <= results.len() {
            n as int
        } else if offset <= results.len() {
            results.len() - offset
        } else {
            0
        }),
{
}

/// Pages follow one another: a page of some results and the page behind it without a
/// limit are together the page without a limit, and the first such page holds all the
/// results.
pub proof fn pages_follow_one_another(results: Seq<Seq<char>>, offset: nat, n: usize)
    ensures
        page(results, offset, Some(n)) + page(results, offset + n as nat, None) == page(
            results,
            offset,
            None,
        ),
        page(results, 0, None) == results,
        offset > 0 && results.len() > 0 ==> page(results, offset, None) == page(
            results.drop_first(),
            (offset - 1) as nat,
            None,
        ),
{
    assert(page(results, offset, Some(n)) + page(results, offset + n as nat, None) =~= page(
        results,
        offset,
        None,
    ));
    assert(page(results, 0, None) =~= results);
    if offset > 0 && results.len() > 0 {
        assert(page(results, offset, None) =~= page(
            results.drop_first(),
            (offset - 1) as nat,
            None,
        ));
    }
}

/// Where a page ends: after its limit, or with the last result.
pub open spec fn page_end(total: int, offset: int, limit: Option<usize>) -> int {
    match limit {
        Some(n) => if offset + n < total {
            offset + n
        } else {
            total
        },
        None => total,
    }
}

/// A `Grep` call for matching lines reports the lines of the search from its offset on,
/// up to its limit or to the last one, one to a line; and says so where there are none.
pub proof fn grep_reports_the_lines_from_its_offset_on(
    call: &GrepCall,
    lines: Vec<String>,
    r: String,
)
    requires
        call_ensures(report_grep, (call, lines), r),
        call.mode == GrepOutputMode::Content,
    ensures
        ({
            let total = lines@.len() as int;
            let offset = call.offset as int;
            let end = page_end(total, offset, call.head_limit);
            if offset < end {
                r@ == joined(views(lines@.subrange(offset, end)), "\n"@)
            } else {
                r@ == "No matches found"@
            }
        }),
{
    let all = views(lines@);
    let shown = page(all, call.offset as nat, call.head_limit);
    let total = lines@.len() as int;
    let offset = call.offset as int;
    let end = page_end(total, offset, call.head_limit);
    if offset < end {
        assert(shown =~= views(lines@.subrange(offset, end)));
    } else {
        assert(shown.len() == 0);
    }
}

/// A `Grep` call for files reports the files that the lines speak of, from its offset on,
/// one to a line.
pub proof fn grep_reports_the_files_from_its_offset_on(
    call: &GrepCall,
    lines: Vec<String>,
    r: String,
)
    requires
        call_ensures(report_grep, (call, lines), r),
        call.mode == GrepOutputMode::FilesWithMatches,
    ensures
        ({
            let files = distinct(result_paths(views(lines@), call.path@));
            let offset = call.offset as int;
            let end = page_end(files.len() as int, offset, call.head_limit);
            if offset < end {
                r@ == joined(files.subrange(offset, end), "\n"@)
            } else {
                r@ == "No matches found"@
            }
        }),
{
    let files = distinct(result_paths(views(lines@), call.path@));
    let offset = call.offset as int;
    let end = page_end(files.len() as int, offset, call.head_limit);
    let shown = page(files, call.offset as nat, call.head_limit);
    if offset < end {
        assert(shown =~= files.subrange(offset, end));
    } else {
        assert(shown.len() == 0);
    }
}

/// A `Grep` call for counts reports those same files, each with the number of the lines
/// that speak of it.
pub proof fn grep_reports_the_matches_of_each_file(
    call: &GrepCall,
    lines: Vec<String>,
    r: String,
    k: int,
)
    requires
        call_ensures(report_grep, (call, lines), r),
        call.mode == GrepOutputMode::Count,
        call.offset == 0,
        call.head_limit is None,
        lines@.len() > 0,
        0 <= k < distinct(result_paths(views(lines@), call.path@)).len(),
    ensures
        exists|shown: Seq<Seq<char>>| #[trigger]
            joined(shown, "\n"@) == r@ && {
                let paths = result_paths(views(lines@), call.path@);
                &&& shown.len() == distinct(paths).len()
                &&& shown[k] == distinct(paths)[k] + ":"@ + decimal(
                    paths.to_multiset().count(distinct(paths)[k]),
                )
            },
{
    let paths = result_paths(views(lines@), call.path@);
    let all = shaped(GrepOutputMode::Count, views(lines@), call.path@);
    assert(page(all, 0, None) =~= all);
    lemma_occurrences_count(paths, distinct(paths)[k]);
    assert(joined(all, "\n"@) == r@);
}

proof fn lemma_occurrences_count(items: Seq<Seq<char>>, text: Seq<char>)
    ensures
        occurrences(items, text) == items.to_multiset().count(text),
    decreases items.len(),
{
    items.to_multiset_ensures();
    if items.len() > 0 {
        let init = items.drop_last();
        lemma_occurrences_count(init, text);
        init.to_multiset_ensures();
        assert(items =~= init.push(items.last()));
    }
}

/// Files are listed in the order in which they first occur, each once, and every one
/// that occurs.
pub proof fn files_are_listed_by_their_first_match(paths: Seq<Seq<char>>, i: int)
    requires
        0 <= i < paths.len(),
    ensures
        distinct(paths).no_duplicates(),
        distinct(paths).contains(paths[i]),
        forall|k: int| 0 <= k < distinct(paths).len() ==> paths.contains(#[trigger] distinct(paths)[k]),
        distinct(paths)[0] == paths[0],
        distinct(paths.take(i)).contains(paths[i]) ==> distinct(paths.take(i + 1)) == distinct(
            paths.take(i),
        ),
        !distinct(paths.take(i)).contains(paths[i]) ==> distinct(paths.take(i + 1)) == distinct(
            paths.take(i),
        ).push(paths[i]),
        distinct(paths).len() >= distinct(paths.take(i + 1)).len() && distinct(paths).take(
            distinct(paths.take(i + 1)).len() as int,
        ) == distinct(paths.take(i + 1)),
    decreases paths.len(),
{
    lemma_distinct(paths);
    assert(paths.take(i + 1).drop_last() =~= paths.take(i));
    assert(paths.take(i + 1).last() == paths[i]);
    lemma_distinct_members(paths);
    if i + 1 < paths.len() {
        let init = paths.drop_last();
        files_are_listed_by_their_first_match(init, i);
        assert(init.take(i + 1) =~= paths.take(i + 1));
        let n = distinct(paths.take(i + 1)).len() as int;
        assert(distinct(paths).take(n) =~= distinct(init).take(n));
        assert(distinct(init).len() > 0);
        assert(distinct(paths)[0] == distinct(init)[0]);
    } else {
        assert(paths.take(i + 1) =~= paths);
        assert(distinct(paths).take(distinct(paths).len() as int) =~= distinct(paths));
        if i == 0 {
            assert(paths.drop_last() =~= Seq::<Seq<char>>::empty());
            assert(distinct(paths.drop_last()).len() == 0);
        } else {
            files_are_listed_by_their_first_match(paths.drop_last(), 0);
            assert(distinct(paths)[0] == distinct(paths.drop_last())[0]);
        }
    }
}

proof fn lemma_distinct_members(paths: Seq<Seq<char>>)
    ensures
        forall|i: int| 0 <= i < paths.len() ==> distinct(paths).contains(#[trigger] paths[i]),
        forall|k: int| 0 <= k < distinct(paths).len() ==> paths.contains(#[trigger] distinct(paths)[k]),
    decreases paths.len(),
{
    if paths.len() > 0 {
        let init = paths.drop_last();
        let before = distinct(init);
        let after = distinct(paths);
        lemma_distinct_members(init);
        assert(before.push(paths.last())[before.len() as int] == paths.last());
        assert forall|x: Seq<char>| before.contains(x) implies after.contains(x) by {
            let k = choose|k: int| 0 <= k < before.len() && before[k] == x;
            assert(after[k] == x);
        }
        assert forall|i: int| 0 <= i < paths.len() implies after.contains(#[trigger] paths[i]) by {
            if i < init.len() {
                assert(init[i] == paths[i]);
            } else if !before.contains(paths.last()) {
                assert(after[before.len() as int] == paths.last());
            }
        }
        assert forall|k: int| 0 <= k < after.len() implies paths.contains(#[trigger] after[k]) by {
            if k < before.len() {
                assert(after[k] == before[k]);
                let i = choose|i: int| 0 <= i < init.len() && init[i] == before[k];
                assert(paths[i] == after[k]);
            } else {
                assert(paths[paths.len() - 1] == after[k]);
            }
        }
    }
}

/// Every character is a decimal digit.
pub open spec fn all_digits(s: Seq<char>) -> bool {
    forall|i: int| 0 <= i < s.len() ==> '0' <= #[trigger] s[i] <= '9'
}

/// The line reads as a path, a line number between colons, and the rest.
pub open spec fn numbered_line(
    line: Seq<char>,
    path: Seq<char>,
    number: Seq<char>,
    rest: Seq<char>,
) -> bool {
    number.len() > 0 && all_digits(number) && line == path + seq![':'] + number + seq![':'] + rest
}

proof fn lemma_digit_run(digits: Seq<char>, rest: Seq<char>)
    requires
        all_digits(digits),
        rest.len() > 0 ==> !('0' <= rest[0] <= '9'),
    ensures
        digit_run(digits + rest) == digits.len(),
    decreases digits.len(),
{
    let s = digits + rest;
    if digits.len() > 0 {
        assert(s[0] == digits[0]);
        assert(s.drop_first() =~= digits.drop_first() + rest);
        assert forall|i: int| 0 <= i < digits.drop_first().len() implies '0'
            <= #[trigger] digits.drop_first()[i] <= '9' by {
            assert(digits.drop_first()[i] == digits[i + 1]);
        }
        lemma_digit_run(digits.drop_first(), rest);
    } else {
        assert(s =~= rest);
    }
}

proof fn lemma_no_field(line: Seq<char>, from: int, to: int)
    requires
        0 <= from <= to <= line.len(),
        forall|i: int| from <= i < to ==> #[trigger] line[i] != ':',
    ensures
        line_field(line, from) == line_field(line, to),
    decreases to - from,
{
    if from < to {
        assert(line[from] != ':');
        lemma_no_field(line, from + 1, to);
    }
}

/// The file of a numbered line is the path in front of its number, and a line without a
/// number in it speaks of the path that was searched. Colons behind the number do not
/// matter.
pub proof fn the_path_stands_before_the_line_number(
    line: &str,
    searched: &str,
    r: &str,
    path: Seq<char>,
    number: Seq<char>,
    rest: Seq<char>,
)
    requires
        call_ensures(grep_result_path, (line, searched), r),
    ensures
        numbered_line(line@, path, number, rest) && !path.contains(':') ==> r@ == path,
        !line@.contains(':') ==> r@ == searched@,
        r@ == searched@ || exists|at: int|
            0 <= at < line@.len() && line@[at] == ':' && r@ == #[trigger] line@.take(at),
{
    let s = line@;
    if numbered_line(s, path, number, rest) && !path.contains(':') {
        let at = path.len() as int;
        assert(s[at] == ':');
        assert(s.skip(at + 1) =~= number + (seq![':'] + rest));
        lemma_digit_run(number, seq![':'] + rest);
        assert(s[at + 1 + number.len()] == ':');
        assert(line_field_at(s, at));
        assert forall|i: int| 0 <= i < at implies #[trigger] s[i] != ':' by {
            assert(s[i] == path[i]);
            assert(path.contains(path[i]));
        }
        lemma_no_field(s, 0, at);
        assert(line_field(s, at) == Some(at));
        assert(s.take(at) =~= path);
    }
    if !s.contains(':') {
        assert forall|i: int| 0 <= i < s.len() implies #[trigger] s[i] != ':' by {
            assert(s.contains(s[i]));
        }
        lemma_no_field(s, 0, s.len() as int);
    }
    lemma_field_is_a_colon(s, 0);
}

proof fn lemma_field_is_a_colon(line: Seq<char>, from: int)
    ensures
        line_field(line, from) matches Some(at) ==> 0 <= at < line.len() && line[at] == ':',
    decreases line.len() - from,
{
    if 0 <= from < line.len() && !line_field_at(line, from) {
        lemma_field_is_a_colon(line, from + 1);
    }
}

/// The words for the output modes, and only those, name one; without a word the lines
/// are wanted.
pub proof fn output_modes_are_named(value: Option<&str>, r: Result<GrepOutputMode, String>)
    requires
        call_ensures(GrepOutputMode::parse, (value,), r),
    ensures
        value is None ==> r == Ok::<GrepOutputMode, String>(GrepOutputMode::Content),
        value matches Some(word) ==> {
            &&& r == Ok::<GrepOutputMode, String>(GrepOutputMode::Content) <==> word@ == "content"@
            &&& r == Ok::<GrepOutputMode, String>(GrepOutputMode::FilesWithMatches) <==> word@
                == "files_with_matches"@
            &&& r == Ok::<GrepOutputMode, String>(GrepOutputMode::Count) <==> word@ == "count"@
            &&& r matches Err(error) ==> error@ == "Invalid output_mode `"@ + word@
                + "` (expected content|files_with_matches|count)"@
        },
{
    reveal_strlit("content");
    reveal_strlit("files_with_matches");
    reveal_strlit("count");
    assert("content"@.len() == 7 && "files_with_matches"@.len() == 18 && "count"@.len() == 5);
}

/// A planned search is the one that was asked for: its pattern, its path or else the
/// working directory, its glob, its case, its offset or else none. The lines of a search
/// for lines are capped at the end of the page, and those of the other modes not at all.
pub proof fn searches_are_planned_as_asked(
    args: &Json,
    pattern: String,
    limit: Option<usize>,
    offset: Option<usize>,
    r: Result<GrepCall, String>,
)
    requires
        call_ensures(plan_grep, (args, Ok(pattern), Ok(limit), Ok(offset)), r),
        args.tree().text_at("output_mode"@) is None,
    ensures
        r matches Ok(call) && {
            &&& call.pattern == pattern
            &&& call.mode == GrepOutputMode::Content
            &&& call.head_limit == limit
            &&& offset matches Some(n) ==> call.offset == n
            &&& offset is None ==> call.offset == 0
            &&& args.tree().text_at("path"@) matches Some(path) ==> call.path@ == path
            &&& args.tree().text_at("path"@) is None ==> call.path@ == "."@
            &&& args.tree().text_at("glob"@) matches Some(glob) ==> (call.glob_filter matches Some(
                text,
            ) && text@ == glob)
            &&& args.tree().text_at("glob"@) is None ==> call.glob_filter is None
            &&& call.case_insensitive <==> args.tree().bool_at("case_insensitive"@) == Some(true)
            &&& limit is None <==> call.max_results is None
            &&& limit matches Some(n) ==> (n + call.offset <= usize::MAX ==> call.max_results
                == Some((n + call.offset) as usize))
        },
{
}

/// A search for files or for counts is never capped: a cap on lines would leave files
/// out.
pub proof fn searches_for_files_are_not_capped(
    args: &Json,
    pattern: String,
    limit: Option<usize>,
    offset: Option<usize>,
    r: Result<GrepCall, String>,
    word: Seq<char>,
)
    requires
        call_ensures(plan_grep, (args, Ok(pattern), Ok(limit), Ok(offset)), r),
        args.tree().text_at("output_mode"@) == Some(word),
    ensures
        r is Ok <==> word == "content"@ || word == "files_with_matches"@ || word == "count"@,
        word == "files_with_matches"@ ==> (r matches Ok(call) && call.mode
            == GrepOutputMode::FilesWithMatches && call.max_results is None),
        word == "count"@ ==> (r matches Ok(call) && call.mode == GrepOutputMode::Count
            && call.max_results is None),
        word == "content"@ ==> (r matches Ok(call) && call.mode == GrepOutputMode::Content && (
        call.max_results is Some <==> limit is Some)),
{
    reveal_strlit("content");
    reveal_strlit("files_with_matches");
    reveal_strlit("count");
    assert("content"@.len() == 7 && "files_with_matches"@.len() == 18 && "count"@.len() == 5);
}

/// The faults of a search come in order: the pattern, the output mode, the limit, the
/// offset.
pub proof fn faults_of_a_search_come_in_order(
    args: &Json,
    pattern: Result<String, String>,
    limit: Result<Option<usize>, String>,
    offset: Result<Option<usize>, String>,
    r: Result<GrepCall, String>,
)
    requires
        call_ensures(plan_grep, (args, pattern, limit, offset), r),
    ensures
        pattern matches Err(fault) ==> r == Err::<GrepCall, String>(fault),
        pattern is Ok && args.tree().text_at("output_mode"@) is None ==> {
            &&& limit matches Err(fault) ==> r == Err::<GrepCall, String>(fault)
            &&& limit is Ok ==> (offset matches Err(fault) ==> r == Err::<GrepCall, String>(fault))
            &&& limit is Ok && offset is Ok ==> r is Ok
        },
        pattern is Ok ==> (output_mode(args.tree().text_at("output_mode"@)) matches Err(message)
            ==> (r matches Err(error) && error@ == message)),
{
}

/// A command runs for the seconds that were asked for, a thousand milliseconds each, as
/// far as the cap lets it; without any for the default, which is not capped. It runs
/// where it was told to.
pub proof fn timeouts_are_given_in_seconds(
    args: &Json,
    command: String,
    default_ms: u64,
    max_ms: u64,
    r: Result<BashCall, String>,
    seconds: int,
)
    requires
        call_ensures(plan_bash, (args, Ok(command), default_ms, max_ms), r),
    ensures
        r matches Ok(call) && {
            &&& call.command == command
            &&& args.tree().integer_at("timeout"@) is None ==> call.timeout_ms == default_ms
            &&& args.tree().integer_at("timeout"@) == Some(seconds) && 0 <= seconds <= u64::MAX
                && seconds * 1000 <= max_ms ==> call.timeout_ms == seconds * 1000
            &&& args.tree().integer_at("timeout"@) == Some(seconds) && 0 <= seconds <= u64::MAX
                && seconds * 1000 > max_ms ==> call.timeout_ms == max_ms
            &&& args.tree().integer_at("timeout"@) == Some(seconds) && !(0 <= seconds <= u64::MAX)
                ==> call.timeout_ms == default_ms
            &&& args.tree().text_at("cwd"@) matches Some(path) ==> (call.cwd matches Some(cwd)
                && cwd@ == path)
            &&& args.tree().text_at("cwd"@) is None ==> call.cwd is None
        },
{
}

/// What a command wrote is reported: its output, on a line behind it its error output,
/// and on a line behind that its exit code where it failed. What it did not write leaves
/// no empty line.
pub proof fn commands_are_reported_with_their_failure(
    stdout: String,
    stderr: &str,
    exit_code: Option<i32>,
    r: String,
)
    requires
        call_ensures(report_bash, (stdout, stderr, exit_code), r),
    ensures
        ({
            let written = if stderr@.len() == 0 {
                stdout@
            } else if stdout@.len() == 0 {
                stderr@
            } else {
                stdout@ + "\n"@ + stderr@
            };
            &&& exit_code is None || exit_code == Some(0i32) ==> r@ == written
            &&& exit_code matches Some(code) ==> (code != 0 && written.len() > 0 ==> r@ == written
                + "\n"@ + "Command failed with exit code: "@ + signed_decimal(code as int))
            &&& exit_code matches Some(code) ==> (code != 0 && written.len() == 0 ==> r@
                == "Command failed with exit code: "@ + signed_decimal(code as int))
        }),
{
    if let Some(code) = exit_code {
        let written = if stderr@.len() == 0 {
            stdout@
        } else if stdout@.len() == 0 {
            stderr@
        } else {
            stdout@ + "\n"@ + stderr@
        };
        let line = "Command failed with exit code: "@ + signed_decimal(code as int);
        assert(written + "\n"@ + line =~= written + "\n"@ + "Command failed with exit code: "@
            + signed_decimal(code as int));
    }
}

/// A `Read` call begins where it was told to: at a line, or that many lines before the
/// end, or at the first line. Without an offset it reads as many lines as it was told to,
/// else two thousand; with an offset, all the lines from there on, unless told how many.
pub proof fn reads_begin_where_they_were_told_to(
    args: &Json,
    path: String,
    n_lines: Option<usize>,
    r: Result<(String, ReadPlan), String>,
    offset: int,
)
    requires
        call_ensures(plan_read, (args, Ok(path), Ok(n_lines)), r),
        args.tree().integer_at("line_offset"@) is Some ==> args.tree().integer_at(
            "line_offset"@,
        ) == Some(offset) && i64::MIN <= offset <= i64::MAX,
    ensures
        r matches Ok(planned) ==> planned.0 == path,
        args.tree().integer_at("line_offset"@) is None ==> (r matches Ok(planned) && planned.1
            == ReadPlan::Lines(
            LineRange {
                start: None,
                limit: Some(
                    match n_lines {
                        Some(n) => n,
                        None => 2000,
                    },
                ),
            },
        )),
        args.tree().integer_at("line_offset"@) is Some && 0 <= offset <= usize::MAX ==> (
        r matches Ok(planned) && planned.1 == ReadPlan::Lines(
            LineRange { start: Some(offset as usize), limit: n_lines },
        )),
        args.tree().integer_at("line_offset"@) is Some && 0 < -offset <= usize::MAX ==> (
        r matches Ok(planned) && planned.1 == (ReadPlan::FromEnd {
            from_end: (-offset) as usize,
            n_lines,
        })),
        args.tree().integer_at("line_offset"@) is Some && (offset > usize::MAX || -offset
            > usize::MAX) ==> r is Err,
{
}

/// Reading from the end begins so many lines before it, or at the first line where there
/// are not so many; it reads to the end, unless told how many lines.
pub proof fn reading_from_the_end_reads_the_last_lines(
    total: usize,
    from_end: usize,
    n_lines: Option<usize>,
    r: LineRange,
)
    requires
        call_ensures(after_count, (total, from_end, n_lines), r),
        0 < from_end,
    ensures
        from_end < total ==> r.start == Some((total - from_end + 1) as usize),
        from_end >= total ==> r.start == Some(1usize),
        n_lines is Some ==> r.limit == n_lines,
        n_lines is None ==> r.limit == Some(from_end),
{
}

proof fn lemma_newlines_add(a: Seq<char>, b: Seq<char>)
    ensures
        (a + b).filter(|c: char| c == '\n').len() == a.filter(|c: char| c == '\n').len() + b.filter(
            |c: char| c == '\n',
        ).len(),
{
    Seq::filter_distributes_over_add(a, b, |c: char| c == '\n');
}

proof fn lemma_no_newline(a: Seq<char>)
    requires
        !a.contains('\n'),
    ensures
        a.filter(|c: char| c == '\n').len() == 0,
    decreases a.len(),
{
    reveal(Seq::filter);
    if a.len() > 0 {
        assert(a.contains(a[a.len() - 1]));
        assert(!a.drop_last().contains('\n')) by {
            if a.drop_last().contains('\n') {
                let k = choose|k: int| 0 <= k < a.drop_last().len() && a.drop_last()[k] == '\n';
                assert(a[k] == '\n');
            }
        }
        lemma_no_newline(a.drop_last());
    }
}

/// A line counts as one: in front of a text, with its newline, it adds one to the lines
/// of the text; alone without a newline it is one, unless it is empty.
pub proof fn every_line_is_counted(line: Seq<char>, rest: Seq<char>)
    requires
        !line.contains('\n'),
    ensures
        line_count(line + seq!['\n'] + rest) == 1 + line_count(rest),
        line.len() > 0 ==> line_count(line) == 1,
        line_count(Seq::empty()) == 0,
{
    let newline = seq!['\n'];
    let all = line + newline + rest;
    lemma_no_newline(line);
    lemma_newlines_add(line + newline, rest);
    lemma_newlines_add(line, newline);
    assert(newline.filter(|c: char| c == '\n').len() == 1) by {
        reveal(Seq::filter);
        assert(newline.drop_last() =~= Seq::<char>::empty());
        assert(newline.drop_last().filter(|c: char| c == '\n').len() == 0);
    }
    assert(Seq::<char>::empty().filter(|c: char| c == '\n').len() == 0) by {
        reveal(Seq::filter);
    }
    if rest.len() > 0 {
        assert(all.last() == rest.last());
    } else {
        assert(all.last() == '\n');
        assert(rest =~= Seq::<char>::empty());
    }
    if line.len() > 0 {
        assert(line.contains(line.last()));
    }
}

/// A `Write` call replaces the file unless it was told to append: then what the file
/// holds stays, and the new content comes behind it with nothing in between. Any other
/// mode is refused.
pub proof fn writes_replace_unless_told_to_append(
    args: &Json,
    path: String,
    content: String,
    r: Result<WriteCall, String>,
)
    requires
        call_ensures(plan_write, (args, Ok(path), Ok(content)), r),
    ensures
        args.tree().text_at("mode"@) is None || args.tree().text_at("mode"@) == Some("overwrite"@)
            ==> r == Ok::<WriteCall, String>(WriteCall { path, content, append: false }),
        args.tree().text_at("mode"@) == Some("append"@) ==> r == Ok::<WriteCall, String>(
            WriteCall { path, content, append: true },
        ),
        r is Err <==> (args.tree().text_at("mode"@) matches Some(mode) && mode != "overwrite"@
            && mode != "append"@),
        r matches Err(error) ==> error@ == "Invalid mode `"@ + args.tree().text_at("mode"@)->0
            + "` (expected overwrite|append)"@,
{
    reveal_strlit("overwrite");
    reveal_strlit("append");
    assert("overwrite"@.len() == 9 && "append"@.len() == 6);
}

/// What is written: the content alone, or behind what the file held; and it is reported
/// by its path.
pub proof fn appending_keeps_what_was_there(
    call: &WriteCall,
    existing: Option<String>,
    payload: String,
    report: String,
)
    requires
        call_ensures(write_payload, (call, existing), payload),
        call_ensures(report_write, (call,), report),
    ensures
        !call.append ==> payload@ == call.content@,
        call.append ==> (existing matches Some(text) ==> payload@ == text@ + call.content@),
        call.append && existing is None ==> payload@ == call.content@,
        report@ == "Wrote "@ + call.path@,
{
    if call.append && existing is None {
        assert(Seq::<char>::empty() + call.content@ =~= call.content@);
    }
}

/// Each tool goes by the name of the built-in tool whose place it takes, and `Bash` quotes
/// both of its limits in seconds to whoever calls it.
pub proof fn tools_take_the_place_of_built_in_ones(
    default_ms: u64,
    max_ms: u64,
    bash: ToolDefinition,
    read: ToolDefinition,
    write: ToolDefinition,
    grep: ToolDefinition,
)
    requires
        call_ensures(make_kimi_bash_tool, (default_ms, max_ms), bash),
        call_ensures(make_kimi_read_tool, (), read),
        call_ensures(make_kimi_write_tool, (), write),
        call_ensures(make_kimi_grep_tool, (), grep),
    ensures
        bash.name@ == NativeTool::Shell.canonical(),
        read.name@ == NativeTool::ReadFile.canonical(),
        write.name@ == NativeTool::WriteFile.canonical(),
        grep.name@ == NativeTool::Grep.canonical(),
        bash.parameters.tree() == object_schema(
            seq![
                ("command"@, parameter_schema("string"@, "The command to execute."@)),
                (
                    "cwd"@,
                    parameter_schema(
                        "string"@,
                        "Directory to run the command in. Defaults to the working directory."@,
                    ),
                ),
                (
                    "timeout"@,
                    parameter_schema(
                        "integer"@,
                        "Timeout in seconds (default "@ + decimal((default_ms / 1000) as nat)
                            + ", max "@ + decimal((max_ms / 1000) as nat) + ")."@,
                    ),
                ),
                (
                    "description"@,
                    parameter_schema("string"@, "Short description of what this command does."@),
                ),
            ],
            seq!["command"@],
        ),
{
}

/// The property at `i` of a schema has this name and this type.
pub open spec fn takes(schema: Tree, i: int, name: Seq<char>, kind: Seq<char>) -> bool {
    schema.at("properties"@) matches Some(Tree::Object(properties)) && 0 <= i < properties.len()
        && properties[i].0 == name && properties[i].1.at("type"@) == Some(Tree::Text(kind))
}

/// The schema has this many properties, and requires these of them.
pub open spec fn asks_for_parameters(schema: Tree, count: int, required: Seq<Seq<char>>) -> bool {
    &&& schema.at("type"@) == Some(Tree::Text("object"@))
    &&& schema.at("properties"@) matches Some(Tree::Object(properties)) && properties.len() == count
    &&& schema.at("required"@) matches Some(Tree::Array(items)) && items.len() == required.len()
        && forall|i: int| 0 <= i < items.len() ==> #[trigger] items[i] == Tree::Text(required[i])
}

/// Each tool declares the parameters that its calls are read from, and requires those
/// without which there is nothing to do.
pub proof fn tools_declare_what_they_take(
    default_ms: u64,
    max_ms: u64,
    bash: ToolDefinition,
    read: ToolDefinition,
    write: ToolDefinition,
    grep: ToolDefinition,
)
    requires
        call_ensures(make_kimi_bash_tool, (default_ms, max_ms), bash),
        call_ensures(make_kimi_read_tool, (), read),
        call_ensures(make_kimi_write_tool, (), write),
        call_ensures(make_kimi_grep_tool, (), grep),
    ensures
        asks_for_parameters(bash.parameters.tree(), 4, seq!["command"@]),
        takes(bash.parameters.tree(), 0, "command"@, "string"@),
        takes(bash.parameters.tree(), 1, "cwd"@, "string"@),
        takes(bash.parameters.tree(), 2, "timeout"@, "integer"@),
        takes(bash.parameters.tree(), 3, "description"@, "string"@),
        asks_for_parameters(read.parameters.tree(), 3, seq!["path"@]),
        takes(read.parameters.tree(), 0, "path"@, "string"@),
        takes(read.parameters.tree(), 1, "line_offset"@, "integer"@),
        takes(read.parameters.tree(), 2, "n_lines"@, "integer"@),
        asks_for_parameters(write.parameters.tree(), 3, seq!["path"@, "content"@]),
        takes(write.parameters.tree(), 0, "path"@, "string"@),
        takes(write.parameters.tree(), 1, "content"@, "string"@),
        takes(write.parameters.tree(), 2, "mode"@, "string"@),
        asks_for_parameters(grep.parameters.tree(), 7, seq!["pattern"@]),
        takes(grep.parameters.tree(), 0, "pattern"@, "string"@),
        takes(grep.parameters.tree(), 1, "path"@, "string"@),
        takes(grep.parameters.tree(), 2, "glob"@, "string"@),
        takes(grep.parameters.tree(), 3, "output_mode"@, "string"@),
        takes(grep.parameters.tree(), 4, "head_limit"@, "integer"@),
        takes(grep.parameters.tree(), 5, "offset"@, "integer"@),
        takes(grep.parameters.tree(), 6, "case_insensitive"@, "boolean"@),
{
    lemma_takes(bash.parameters.tree());
    lemma_takes(read.parameters.tree());
    lemma_takes(write.parameters.tree());
    lemma_takes(grep.parameters.tree());
}

/// How a schema is read, property by property.
proof fn lemma_takes(schema: Tree)
    ensures
        forall|properties: Seq<(Seq<char>, Tree)>, required: Seq<Seq<char>>|
            schema == #[trigger] object_schema(properties, required) ==> asks_for_parameters(
                schema,
                properties.len() as int,
                required,
            ) && schema.at("properties"@) == Some(Tree::Object(properties)),
        forall|kind: Seq<char>, description: Seq<char>| #[trigger]
            parameter_schema(kind, description).at("type"@) == Some(Tree::Text(kind)),
        forall|options: Seq<Seq<char>>, description: Seq<char>| #[trigger]
            choice_schema(options, description).at("type"@) == Some(Tree::Text("string"@)),
{
    assert forall|properties: Seq<(Seq<char>, Tree)>, required: Seq<Seq<char>>|
        schema == #[trigger] object_schema(properties, required) implies asks_for_parameters(
        schema,
        properties.len() as int,
        required,
    ) && schema.at("properties"@) == Some(Tree::Object(properties)) by {
        tools_take_an_object(properties, required);
    }
    assert forall|kind: Seq<char>, description: Seq<char>| #[trigger]
        parameter_schema(kind, description).at("type"@) == Some(Tree::Text(kind)) by {
        parameters_say_their_type(kind, Seq::empty(), description);
    }
    assert forall|options: Seq<Seq<char>>, description: Seq<char>| #[trigger]
        choice_schema(options, description).at("type"@) == Some(Tree::Text("string"@)) by {
        parameters_say_their_type("string"@, options, description);
    }
}

} // verus!
