//! The MCP stdio server: why it ends, how it notices that its executable was replaced,
//! and how a tool call is answered.
//!
//! MCP hosts can keep stdio servers alive for days. Without the check for a replaced
//! executable, an old process keeps its old API response decoder after an upgrade.

use vstd::prelude::*;
use vstd::string::*;

use crate::text::{ascii_lowered, same_text};

verus! {

/// The reason a running MCP stdio server returned to its caller.
#[derive(Debug, Clone, Copy, PartialEq, Eq, Structural)]
pub enum McpServerExit {
    /// The MCP service stopped without an executable replacement.
    ServiceStopped,
    /// The executable on disk changed while the MCP service was running.
    ExecutableReplaced,
}

/// The end of a server: `replaced` says whether it was stopped because its executable
/// was replaced, `service` how the service ended. A failure of the service comes first.
pub fn server_exit<E>(replaced: bool, service: Result<(), E>) -> (r: Result<McpServerExit, E>)
    ensures
        match service {
            Err(error) => r == Err::<McpServerExit, E>(error),
            Ok(_) => r == Ok::<McpServerExit, E>(
                if replaced {
                    McpServerExit::ExecutableReplaced
                } else {
                    McpServerExit::ServiceStopped
                },
            ),
        },
{
    match service {
        Err(error) => Err(error),
        Ok(_) => Ok(
            if replaced {
                McpServerExit::ExecutableReplaced
            } else {
                McpServerExit::ServiceStopped
            },
        ),
    }
}

/// What identifies an executable file. The device and the inode are absent where the
/// system has none.
#[derive(Debug, Clone, Copy, PartialEq, Eq, Structural)]
pub struct ExecutableIdentity {
    pub len: u64,
    /// The time of the last change in nanoseconds, where the system tells it.
    pub modified: Option<i128>,
    pub device: Option<u64>,
    pub inode: Option<u64>,
}

fn same_modified(a: Option<i128>, b: Option<i128>) -> (r: bool)
    ensures
        r == (a == b),
{
    match (a, b) {
        (Some(x), Some(y)) => x == y,
        (None, None) => true,
        _ => false,
    }
}

fn same_number(a: Option<u64>, b: Option<u64>) -> (r: bool)
    ensures
        r == (a == b),
{
    match (a, b) {
        (Some(x), Some(y)) => x == y,
        (None, None) => true,
        _ => false,
    }
}

/// Whether an executable was replaced: it is gone, or another file stands in its place.
/// `now` is the file that is there.
pub fn was_replaced(
    identity: &ExecutableIdentity,
    now: Option<&ExecutableIdentity>,
) -> (b: bool)
    ensures
        b == (match now {
            Some(current) => *current != *identity,
            None => true,
        }),
{
    match now {
        Some(current) => !(current.len == identity.len && same_modified(
            current.modified,
            identity.modified,
        ) && same_number(current.device, identity.device) && same_number(
            current.inode,
            identity.inode,
        )),
        None => true,
    }
}

/// Whether a file can be executed: it is a regular file and someone may execute it.
/// `mode` holds its permission bits, where the system has them.
pub fn is_executable_file(is_file: bool, mode: Option<u32>) -> (b: bool)
    ensures
        b == (is_file && match mode {
            Some(bits) => bits & 0o111 != 0,
            None => true,
        }),
{
    if !is_file {
        return false;
    }
    match mode {
        Some(bits) => bits & 0o111 != 0,
        None => true,
    }
}

/// A file of the search path: where it would be, or why that cannot be told, and whether
/// it can be executed.
#[derive(Debug, PartialEq, Eq)]
pub struct PathCandidate<P, E> {
    pub path: Result<P, E>,
    pub executable: bool,
}

/// Which file is the executable that was invoked.
#[derive(Debug, PartialEq, Eq)]
pub enum ExecutableChoice<P, E> {
    /// The one that was named, made absolute.
    Invoked,
    /// The one of the search path.
    Candidate(P),
    /// The one that the system says is running.
    CurrentExe,
    /// A directory of the search path cannot be told.
    Failed(E),
}

/// The candidate at `i` is passed over.
pub open spec fn passed_over<P, E>(candidates: Seq<PathCandidate<P, E>>, i: int) -> bool {
    candidates[i].path is Ok && !candidates[i].executable
}

/// Finds the executable that was invoked. A name of several components is taken as it
/// is; else the first executable file of the search path counts, where there is a search
/// path; else the file that is running.
pub fn invoked_executable<P, E>(
    components: usize,
    candidates: Vec<PathCandidate<P, E>>,
) -> (r: ExecutableChoice<P, E>)
    ensures
        if components > 1 {
            r is Invoked
        } else {
            match r {
                ExecutableChoice::Candidate(path) => exists|i: int|
                    #![trigger candidates@[i]]
                    0 <= i < candidates@.len() && candidates@[i].path == Ok::<P, E>(path)
                        && candidates@[i].executable && forall|j: int|
                        0 <= j < i ==> #[trigger] passed_over(candidates@, j),
                ExecutableChoice::Failed(error) => exists|i: int|
                    #![trigger candidates@[i]]
                    0 <= i < candidates@.len() && candidates@[i].path == Err::<P, E>(error)
                        && forall|j: int|
                        0 <= j < i ==> #[trigger] passed_over(candidates@, j),
                ExecutableChoice::CurrentExe => forall|j: int|
                    0 <= j < candidates@.len() ==> #[trigger] passed_over(candidates@, j),
                ExecutableChoice::Invoked => false,
            }
        },
{
    if components > 1 {
        return ExecutableChoice::Invoked;
    }
    let ghost all = candidates@;
    let mut rest = candidates;
    let ghost mut done: int = 0;
    while rest.len() > 0
        invariant
            all == candidates@,
            components <= 1,
            0 <= done <= all.len(),
            rest@ == all.skip(done),
            forall|j: int| 0 <= j < done ==> #[trigger] passed_over(all, j),
        decreases rest@.len(),
    {
        let candidate = rest.remove(0);
        proof {
            assert(candidate == all[done]);
            assert(rest@ =~= all.skip(done + 1));
        }
        match candidate.path {
            Err(error) => {
                return ExecutableChoice::Failed(error);
            },
            Ok(path) => {
                if candidate.executable {
                    return ExecutableChoice::Candidate(path);
                }
            },
        }
        proof {
            assert(passed_over(all, done));
            done = done + 1;
        }
    }
    ExecutableChoice::CurrentExe
}

/// A tool that the server offers.
#[derive(Debug, Clone, Copy, PartialEq, Eq, Structural)]
pub enum RunTool {
    Create,
    Search,
    Get,
    Interact,
    Gather,
    Pair,
    Events,
}

impl RunTool {
    /// The name that the tool is called by.
    pub open spec fn called(self) -> Seq<char> {
        match self {
            RunTool::Create => "fabro_run_create"@,
            RunTool::Search => "fabro_run_search"@,
            RunTool::Get => "fabro_run_get"@,
            RunTool::Interact => "fabro_run_interact"@,
            RunTool::Gather => "fabro_run_gather"@,
            RunTool::Pair => "fabro_run_pair"@,
            RunTool::Events => "fabro_run_events"@,
        }
    }

    /// What the tool is said to do.
    pub open spec fn described(self) -> Seq<char> {
        match self {
            RunTool::Create =>
            "Create one or more Fabro workflow runs, optionally under a parent run, starting them by default."@,
            RunTool::Search =>
            "Search Fabro workflow runs by id, parent, workflow, labels, status, archival state, and creation time."@,
            RunTool::Get =>
            "Read-only inspection of a Fabro run: returns its summary, projection, and pending questions without mutating state."@,
            RunTool::Interact =>
            "Control a Fabro run: start, approve, deny, message, interrupt, cancel, archive, unarchive, link or unlink a parent, inspect or answer questions. Use fabro_run_get for read-only inspection."@,
            RunTool::Gather =>
            "Wait for Fabro runs to reach terminal states, returning current state on timeout."@,
            RunTool::Pair =>
            "Inspect, start, message, end, or read transcript for a live Fabro run pairing session."@,
            RunTool::Events =>
            "List, inspect, or search stored events for a Fabro workflow run."@,
        }
    }

    /// All the tools.
    pub open spec fn offered() -> Seq<RunTool> {
        seq![
            RunTool::Create,
            RunTool::Search,
            RunTool::Get,
            RunTool::Interact,
            RunTool::Gather,
            RunTool::Pair,
            RunTool::Events,
        ]
    }

    /// The name that the tool is called by.
    pub fn name(self) -> (r: &'static str)
        ensures
            r@ == self.called(),
    {
        match self {
            RunTool::Create => "fabro_run_create",
            RunTool::Search => "fabro_run_search",
            RunTool::Get => "fabro_run_get",
            RunTool::Interact => "fabro_run_interact",
            RunTool::Gather => "fabro_run_gather",
            RunTool::Pair => "fabro_run_pair",
            RunTool::Events => "fabro_run_events",
        }
    }

    /// What the tool is said to do.
    pub fn description(self) -> (r: &'static str)
        ensures
            r@ == self.described(),
    {
        match self {
            RunTool::Create =>
            "Create one or more Fabro workflow runs, optionally under a parent run, starting them by default.",
            RunTool::Search =>
            "Search Fabro workflow runs by id, parent, workflow, labels, status, archival state, and creation time.",
            RunTool::Get =>
            "Read-only inspection of a Fabro run: returns its summary, projection, and pending questions without mutating state.",
            RunTool::Interact =>
            "Control a Fabro run: start, approve, deny, message, interrupt, cancel, archive, unarchive, link or unlink a parent, inspect or answer questions. Use fabro_run_get for read-only inspection.",
            RunTool::Gather =>
            "Wait for Fabro runs to reach terminal states, returning current state on timeout.",
            RunTool::Pair =>
            "Inspect, start, message, end, or read transcript for a live Fabro run pairing session.",
            RunTool::Events => "List, inspect, or search stored events for a Fabro workflow run.",
        }
    }

    /// All the tools that the server offers.
    pub fn all() -> (r: Vec<RunTool>)
        ensures
            r@ == RunTool::offered(),
    {
        vec![
            RunTool::Create,
            RunTool::Search,
            RunTool::Get,
            RunTool::Interact,
            RunTool::Gather,
            RunTool::Pair,
            RunTool::Events,
        ]
    }

    /// The tool that is called by a name.
    pub fn from_name(name: &str) -> (r: Option<RunTool>)
        ensures
            forall|tool: RunTool| r == Some(tool) <==> #[trigger] tool.called() == name@,
    {
        let tools = RunTool::all();
        let mut i: usize = 0;
        while i < tools.len()
            invariant
                i <= tools@.len(),
                tools@ == RunTool::offered(),
                forall|j: int| 0 <= j < i ==> (#[trigger] tools@[j]).called() != name@,
            decreases tools@.len() - i,
        {
            let tool = tools[i];
            if same_text(tool.name(), name) {
                proof {
                    assert forall|other: RunTool| #[trigger] other.called() == name@ implies other
                        == tool by {
                        run_tools_are_called_by_different_names(tool, other);
                    }
                }
                return Some(tool);
            }
            i += 1;
        }
        proof {
            assert forall|tool: RunTool| #[trigger] tool.called() != name@ by {
                every_run_tool_is_offered(tool);
                let k = choose|k: int|
                    0 <= k < RunTool::offered().len() && RunTool::offered()[k] == tool;
                assert(tools@[k].called() != name@);
            }
        }
        None
    }
}

/// Every tool is among those that the server offers.
pub proof fn every_run_tool_is_offered(tool: RunTool)
    ensures
        RunTool::offered().contains(tool),
{
    let all = RunTool::offered();
    assert(all[0] == RunTool::Create && all[1] == RunTool::Search && all[2] == RunTool::Get && all[3]
        == RunTool::Interact && all[4] == RunTool::Gather && all[5] == RunTool::Pair && all[6]
        == RunTool::Events);
}

/// No two tools are called by the same name.
pub proof fn run_tools_are_called_by_different_names(a: RunTool, b: RunTool)
    requires
        a.called() == b.called(),
    ensures
        a == b,
{
    reveal_strlit("fabro_run_create");
    reveal_strlit("fabro_run_search");
    reveal_strlit("fabro_run_get");
    reveal_strlit("fabro_run_interact");
    reveal_strlit("fabro_run_gather");
    reveal_strlit("fabro_run_pair");
    reveal_strlit("fabro_run_events");
    assert("fabro_run_create"@[10] == 'c');
    assert("fabro_run_search"@[10] == 's');
    assert("fabro_run_get"@[10] == 'g' && "fabro_run_get"@.len() == 13);
    assert("fabro_run_interact"@[10] == 'i');
    assert("fabro_run_gather"@[10] == 'g' && "fabro_run_gather"@.len() == 16);
    assert("fabro_run_pair"@[10] == 'p');
    assert("fabro_run_events"@[10] == 'e');
}

/// The answer to a tool call.
#[derive(Debug, PartialEq, Eq)]
pub enum ToolReply<V> {
    /// A value and its rendering.
    Success { structured: V, text: String },
    /// The message of what went wrong, told to the model.
    Error { text: String },
}

/// What a call gave: the value as it is sent, or why it cannot be sent, and its
/// rendering.
#[derive(Debug, PartialEq, Eq)]
pub struct ToolOutcome<V> {
    pub structured: Result<V, String>,
    pub text: String,
}

/// The reply to a tool call.
pub open spec fn replies<V>(
    parameters: Result<(), String>,
    backend: Result<(), String>,
    outcome: Result<ToolOutcome<V>, String>,
    r: Result<ToolReply<V>, String>,
) -> bool {
    match (parameters, backend, outcome) {
        (Err(text), _, _) => r == Ok::<ToolReply<V>, String>(ToolReply::Error { text }),
        (Ok(_), Err(text), _) => r == Ok::<ToolReply<V>, String>(ToolReply::Error { text }),
        (Ok(_), Ok(_), Err(text)) => r == Ok::<ToolReply<V>, String>(ToolReply::Error { text }),
        (Ok(_), Ok(_), Ok(done)) => match done.structured {
            Ok(structured) => r == Ok::<ToolReply<V>, String>(
                ToolReply::Success { structured, text: done.text },
            ),
            Err(fault) => r matches Err(message) && message@
                == "failed to serialize Fabro MCP tool result: "@ + fault@,
        },
    }
}

/// Answers a tool call: the fault of its parameters comes before that of the backend,
/// and that before the outcome of the call itself. A value that cannot be sent is an
/// error of the server, not of the tool.
pub fn tool_reply<V>(
    parameters: Result<(), String>,
    backend: Result<(), String>,
    outcome: Result<ToolOutcome<V>, String>,
) -> (r: Result<ToolReply<V>, String>)
    ensures
        replies(parameters, backend, outcome, r),
{
    match parameters {
        Err(text) => {
            return Ok(ToolReply::Error { text });
        },
        Ok(_) => {},
    }
    match backend {
        Err(text) => {
            return Ok(ToolReply::Error { text });
        },
        Ok(_) => {},
    }
    match outcome {
        Err(text) => Ok(ToolReply::Error { text }),
        Ok(done) => match done.structured {
            Ok(structured) => Ok(ToolReply::Success { structured, text: done.text }),
            Err(fault) => {
                let mut message = "failed to serialize Fabro MCP tool result: ".to_owned();
                message.append(fault.as_str());
                Err(message)
            },
        },
    }
}

/// What the server tells about itself.
#[derive(Debug, PartialEq, Eq)]
pub struct ServerInfo {
    pub name: String,
    pub title: String,
    pub version: String,
    pub instructions: String,
}

/// What the server of this version tells about itself.
pub fn server_info(version: &str) -> (r: ServerInfo)
    ensures
        r.name@ == "fabro"@,
        r.title@ == "Fabro"@,
        r.version@ == version@,
        r.instructions@
            == "Use these tools to create, inspect, control, wait for, and read events from Fabro workflow runs."@,
{
    ServerInfo {
        name: "fabro".to_owned(),
        title: "Fabro".to_owned(),
        version: version.to_owned(),
        instructions:
            "Use these tools to create, inspect, control, wait for, and read events from Fabro workflow runs.".to_owned(),
    }
}

/// An executable counts as replaced as soon as its file is gone or differs in its length,
/// the time of its last change, its device or its inode, and not before.
pub proof fn any_difference_is_a_replacement(
    identity: &ExecutableIdentity,
    now: Option<&ExecutableIdentity>,
    b: bool,
)
    requires
        call_ensures(was_replaced, (identity, now), b),
    ensures
        now is None ==> b,
        now matches Some(file) ==> (!b <==> (file.len == identity.len && file.modified
            == identity.modified && file.device == identity.device && file.inode
            == identity.inode)),
{
}

/// A file can be executed exactly if it is one and its owner, its group or anyone may:
/// where the system has no such bits, every file can.
pub proof fn any_execute_bit_is_enough(is_file: bool, mode: Option<u32>, b: bool)
    requires
        call_ensures(is_executable_file, (is_file, mode), b),
    ensures
        !is_file ==> !b,
        is_file && mode is None ==> b,
        is_file ==> (mode matches Some(bits) ==> (b <==> (bits & 1 != 0 || bits & 8 != 0 || bits
            & 64 != 0))),
{
    if let Some(bits) = mode {
        assert((bits & 0o111 != 0) <==> (bits & 1 != 0 || bits & 8 != 0 || bits & 64 != 0))
            by (bit_vector);
    }
}

/// The service's own failure is what a server ends with; else it says whether it made way
/// for another executable.
pub proof fn servers_end_with_their_reason<E>(
    replaced: bool,
    service: Result<(), E>,
    r: Result<McpServerExit, E>,
)
    requires
        call_ensures(server_exit::<E>, (replaced, service), r),
    ensures
        service matches Err(error) ==> r == Err::<McpServerExit, E>(error),
        service is Ok && replaced ==> r == Ok::<McpServerExit, E>(
            McpServerExit::ExecutableReplaced,
        ),
        service is Ok && !replaced ==> r == Ok::<McpServerExit, E>(McpServerExit::ServiceStopped),
{
}

/// The first file of the search path that can be executed is the one that was invoked,
/// where a bare name was.
pub proof fn the_first_executable_is_invoked<P, E>(
    components: usize,
    candidates: Vec<PathCandidate<P, E>>,
    r: ExecutableChoice<P, E>,
    i: int,
)
    requires
        call_ensures(invoked_executable::<P, E>, (components, candidates), r),
    ensures
        components > 1 <==> r is Invoked,
        components <= 1 && 0 <= i < candidates@.len() && (forall|j: int|
            0 <= j < i ==> (#[trigger] candidates@[j]).path is Ok && !candidates@[j].executable) ==> {
            &&& candidates@[i].path matches Ok(path) ==> (candidates@[i].executable ==> r
                == ExecutableChoice::<P, E>::Candidate(path))
            &&& candidates@[i].path matches Err(error) ==> r == ExecutableChoice::<P, E>::Failed(
                error,
            )
        },
        components <= 1 && (forall|j: int|
            0 <= j < candidates@.len() ==> (#[trigger] candidates@[j]).path is Ok
                && !candidates@[j].executable) ==> r is CurrentExe,
{
    if components <= 1 {
        if 0 <= i < candidates@.len() {
            assert(passed_over(candidates@, i) ==> candidates@[i].path is Ok);
            match r {
                ExecutableChoice::Candidate(path) => {
                    let k = choose|k: int|
                        #![trigger candidates@[k]]
                        0 <= k < candidates@.len() && candidates@[k].path == Ok::<P, E>(path)
                            && candidates@[k].executable && forall|j: int|
                            0 <= j < k ==> #[trigger] passed_over(candidates@, j);
                    assert(i < k ==> passed_over(candidates@, i));
                },
                ExecutableChoice::Failed(error) => {
                    let k = choose|k: int|
                        #![trigger candidates@[k]]
                        0 <= k < candidates@.len() && candidates@[k].path == Err::<P, E>(error)
                            && forall|j: int|
                            0 <= j < k ==> #[trigger] passed_over(candidates@, j);
                    assert(i < k ==> passed_over(candidates@, i));
                },
                _ => {},
            }
        }
    }
}

/// A call is answered with the first thing that went wrong: its parameters, then the
/// backend, then the call; each is told to the model. What it gave is answered with its
/// value and its rendering, and only a value that cannot be sent is a fault of the server.
pub proof fn calls_are_answered_with_their_first_fault<V>(
    parameters: Result<(), String>,
    backend: Result<(), String>,
    outcome: Result<ToolOutcome<V>, String>,
    r: Result<ToolReply<V>, String>,
)
    requires
        call_ensures(tool_reply::<V>, (parameters, backend, outcome), r),
    ensures
        parameters matches Err(fault) ==> (r matches Ok(ToolReply::Error { text }) && text
            == fault),
        parameters is Ok ==> (backend matches Err(fault) ==> (r matches Ok(
            ToolReply::Error { text },
        ) && text == fault)),
        parameters is Ok && backend is Ok ==> (outcome matches Err(fault) ==> (r matches Ok(
            ToolReply::Error { text },
        ) && text == fault)),
        r matches Ok(ToolReply::Success { structured, text }) ==> parameters is Ok && backend is Ok
            && (outcome matches Ok(done) && done.text == text && done.structured == Ok::<V, String>(
            structured,
        )),
        parameters is Ok && backend is Ok && outcome is Ok && outcome->Ok_0.structured is Ok ==> (
        r matches Ok(reply) && reply is Success),
        r is Err <==> parameters is Ok && backend is Ok && outcome is Ok
            && outcome->Ok_0.structured is Err,
        r matches Err(message) ==> message@ == "failed to serialize Fabro MCP tool result: "@
            + outcome->Ok_0.structured->Err_0@,
{
}

/// Every tool is found by the name that it is listed under, and by no other; all of them
/// work on runs.
pub proof fn tools_are_found_by_their_names(
    tool: RunTool,
    name: &'static str,
    found: Option<RunTool>,
)
    requires
        call_ensures(RunTool::name, (tool,), name),
        call_ensures(RunTool::from_name, (name,), found),
    ensures
        found == Some(tool),
        name@.len() > 10,
        name@.take(10) == "fabro_run_"@,
        tool == RunTool::Create <==> name@ == "fabro_run_create"@,
        tool == RunTool::Search <==> name@ == "fabro_run_search"@,
        tool == RunTool::Get <==> name@ == "fabro_run_get"@,
        tool == RunTool::Interact <==> name@ == "fabro_run_interact"@,
        tool == RunTool::Gather <==> name@ == "fabro_run_gather"@,
        tool == RunTool::Pair <==> name@ == "fabro_run_pair"@,
        tool == RunTool::Events <==> name@ == "fabro_run_events"@,
{
    assert(tool.called() == name@);
    assert forall|other: RunTool| #[trigger] other.called() == name@ implies other == tool by {
        run_tools_are_called_by_different_names(other, tool);
    }
    assert(RunTool::Create.called() == "fabro_run_create"@);
    assert(RunTool::Search.called() == "fabro_run_search"@);
    assert(RunTool::Get.called() == "fabro_run_get"@);
    assert(RunTool::Interact.called() == "fabro_run_interact"@);
    assert(RunTool::Gather.called() == "fabro_run_gather"@);
    assert(RunTool::Pair.called() == "fabro_run_pair"@);
    assert(RunTool::Events.called() == "fabro_run_events"@);
    reveal_strlit("fabro_run_");
    reveal_strlit("fabro_run_create");
    reveal_strlit("fabro_run_search");
    reveal_strlit("fabro_run_get");
    reveal_strlit("fabro_run_interact");
    reveal_strlit("fabro_run_gather");
    reveal_strlit("fabro_run_pair");
    reveal_strlit("fabro_run_events");
    assert(name@.take(10) =~= "fabro_run_"@);
}

/// A server tells its own name and the version that it was given.
pub proof fn servers_tell_their_version(version: &str, r: ServerInfo)
    requires
        call_ensures(server_info, (version,), r),
    ensures
        r.version@ == version@,
        r.name@ == "fabro"@,
        ascii_lowered(r.title@) == r.name@,
{
    reveal_strlit("fabro");
    reveal_strlit("Fabro");
    assert(ascii_lowered("Fabro"@) =~= "fabro"@);
}

/// The tools that are listed are all there are, each of them once.
pub proof fn every_run_tool_is_listed_once(tool: RunTool, r: Vec<RunTool>, i: int, j: int)
    requires
        call_ensures(RunTool::all, (), r),
    ensures
        r@.contains(tool),
        r@.len() == 7,
        0 <= i < j < r@.len() ==> r@[i] != r@[j],
{
    every_run_tool_is_offered(tool);
}

} // verus!
