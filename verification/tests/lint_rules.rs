use fabro::command_requires_script;
use fabro::graph::{AttrValue, Edge, Graph, Node};
use fabro::json::Json;
use fabro::lint::{Diagnostic, LintRule, Severity};
use fabro::parallel_branch::ParallelBranches;
use fabro::parallel_branch_inert_attribute::{self, fix_message, quoted_list};
use fabro::script_prompt_conflict;

/// The handler that runs a node with these attributes.
fn handler_for(attrs: &[(&str, &str)]) -> Option<String> {
    let get = |name: &str| attrs.iter().find(|(key, _)| *key == name).map(|(_, value)| *value);
    let handler = match (get("type"), get("shape")) {
        (Some(explicit), _) => explicit,
        (None, Some("parallelogram")) => "command",
        (None, Some("component")) => "parallel",
        (None, Some("hexagon")) => "human",
        (None, Some("tab")) => "prompt",
        (None, Some("tripleoctagon")) => "parallel.fan_in",
        (None, None) if get("script").is_some() => "command",
        _ => "agent",
    };
    Some(handler.to_string())
}

fn node_with(id: &str, attrs: &[(&str, &str)]) -> Node {
    let mut node = Node::new(id);
    node.handler_type = handler_for(attrs);
    for (key, value) in attrs {
        node.attrs
            .insert((*key).to_string(), AttrValue::String((*value).to_string()));
    }
    node
}

fn minimal_graph() -> Graph {
    let mut g = Graph::new();
    for (id, shape, handler) in [("start", "Mdiamond", "start"), ("exit", "Msquare", "exit")] {
        let mut node = node_with(id, &[("shape", shape)]);
        node.handler_type = Some(handler.to_string());
        g.nodes.insert(id.to_string(), node);
    }
    g.edges.push(Edge::new("start", "exit"));
    g
}

fn add(g: &mut Graph, node: Node) {
    g.nodes.insert(node.id.clone(), node);
}

fn commands(g: &Graph) -> Vec<Diagnostic> {
    command_requires_script::rule().apply(g)
}

fn conflicts(g: &Graph) -> Vec<Diagnostic> {
    script_prompt_conflict::rule().apply(g)
}

fn inert(g: &Graph) -> Vec<Diagnostic> {
    parallel_branch_inert_attribute::rule().apply(g)
}

// ---- Commands without a script ----

#[test]
fn errors_on_command_shape_without_script() {
    let mut g = minimal_graph();
    add(&mut g, node_with("run", &[("shape", "parallelogram"), ("label", "Build")]));

    let d = commands(&g);

    assert_eq!(d.len(), 1);
    assert_eq!(d[0].severity, Severity::Error);
    assert!(d[0].message.contains("no 'script'"));
    assert_eq!(d[0].node_id.as_deref(), Some("run"));
}

#[test]
fn errors_on_explicit_command_type_without_script() {
    let mut g = minimal_graph();
    add(&mut g, node_with("run", &[("type", "command")]));

    let d = commands(&g);

    assert_eq!(d.len(), 1);
    assert_eq!(d[0].severity, Severity::Error);
}

#[test]
fn errors_on_blank_script() {
    let mut g = minimal_graph();
    add(&mut g, node_with("run", &[("shape", "parallelogram"), ("script", "   ")]));

    assert_eq!(commands(&g).len(), 1);
}

#[test]
fn accepts_command_node_with_script() {
    let mut g = minimal_graph();
    add(
        &mut g,
        node_with("run", &[("shape", "parallelogram"), ("script", "cargo build")]),
    );
    add(&mut g, node_with("build", &[("script", "cargo build")]));

    assert!(commands(&g).is_empty());
}

#[test]
fn ignores_non_command_nodes() {
    let mut g = minimal_graph();
    add(&mut g, node_with("plan", &[("prompt", "do it")]));
    add(&mut g, node_with("gate", &[("shape", "hexagon")]));

    assert!(commands(&g).is_empty());
}

#[test]
fn command_findings_are_worded_in_full() {
    let mut g = minimal_graph();
    let mut node = node_with("run", &[("type", "command")]);
    node.attrs.insert("script".to_string(), AttrValue::Other(Json::Bool(true)));
    add(&mut g, node);
    let d = commands(&g);
    assert_eq!(d[0].rule, "command_requires_script");
    assert_eq!(d[0].message, "Command node 'run' has no 'script' to run");
    assert_eq!(
        d[0].fix.as_deref(),
        Some("Add a 'script' attribute, or remove the command shape or type if this was meant to be an agent node")
    );
    assert_eq!(d[0].edge, None);
}

// ---- Script and prompt ----

#[test]
fn errors_when_shapeless_node_sets_both() {
    let mut g = minimal_graph();
    add(
        &mut g,
        node_with("work", &[("script", "cargo build"), ("prompt", "do it")]),
    );

    let d = conflicts(&g);

    assert_eq!(d.len(), 1);
    assert_eq!(d[0].severity, Severity::Error);
    assert!(d[0].message.contains("'script'"));
    assert!(d[0].message.contains("'prompt'"));
    assert_eq!(d[0].node_id.as_deref(), Some("work"));
}

#[test]
fn errors_even_when_shape_is_explicit() {
    let mut g = minimal_graph();
    add(
        &mut g,
        node_with(
            "run",
            &[("shape", "parallelogram"), ("script", "cargo build"), ("prompt", "do it")],
        ),
    );
    add(
        &mut g,
        node_with(
            "plan",
            &[("shape", "box"), ("script", "cargo build"), ("prompt", "do it")],
        ),
    );

    let d = conflicts(&g);

    assert_eq!(d.len(), 2);
    assert!(d.iter().all(|d| d.severity == Severity::Error));
}

#[test]
fn accepts_either_attribute_alone() {
    let mut g = minimal_graph();
    add(&mut g, node_with("build", &[("script", "cargo build")]));
    add(&mut g, node_with("plan", &[("prompt", "do it")]));

    assert!(conflicts(&g).is_empty());
}

#[test]
fn ignores_legacy_tool_command_attribute() {
    let mut g = minimal_graph();
    add(
        &mut g,
        node_with("work", &[("tool_command", "cargo build"), ("prompt", "do it")]),
    );

    assert!(conflicts(&g).is_empty());
}

#[test]
fn conflict_findings_are_worded_in_full() {
    let mut g = minimal_graph();
    add(&mut g, node_with("work", &[("script", ""), ("prompt", "")]));
    let d = conflicts(&g);
    assert_eq!(script_prompt_conflict::rule().name(), "script_prompt_conflict");
    assert_eq!(
        d[0].message,
        "Node 'work' sets both 'script' and 'prompt'. No node type reads both: 'script' selects the command handler and 'prompt' selects an LLM handler"
    );
}

// ---- Inert attributes of branches ----

/// start -> fork -> {branch_a, branch_b} -> merge -> exit
fn parallel_graph() -> Graph {
    let mut g = minimal_graph();
    add(&mut g, node_with("fork", &[("shape", "component")]));
    add(&mut g, node_with("branch_a", &[("shape", "tab")]));
    add(&mut g, node_with("branch_b", &[("shape", "tab")]));
    add(&mut g, node_with("merge", &[("shape", "tripleoctagon")]));
    g.edges = vec![
        Edge::new("start", "fork"),
        Edge::new("fork", "branch_a"),
        Edge::new("fork", "branch_b"),
        Edge::new("branch_a", "merge"),
        Edge::new("branch_b", "merge"),
        Edge::new("merge", "exit"),
    ];
    g
}

fn set(g: &mut Graph, id: &str, attr: &str, value: &str) {
    let mut node = g.nodes.remove(id).expect("graph has the node");
    node.attrs
        .insert(attr.to_string(), AttrValue::String(value.to_string()));
    g.nodes.insert(id.to_string(), node);
}

#[test]
fn warns_on_fidelity_on_branch_node() {
    let mut g = parallel_graph();
    set(&mut g, "branch_a", "fidelity", "truncate");
    let d = inert(&g);
    assert_eq!(d.len(), 1);
    assert_eq!(d[0].severity, Severity::Warning);
    assert_eq!(d[0].node_id.as_deref(), Some("branch_a"));
    assert!(d[0].message.contains("'fidelity'"));
    assert!(d[0].fix.as_deref().is_some_and(|f| f.contains("'fork'")));
}

#[test]
fn warns_on_thread_id_on_branch_edge() {
    let mut g = parallel_graph();
    g.edges[1]
        .attrs
        .insert("thread_id".to_string(), AttrValue::String("impl".to_string()));
    let d = inert(&g);
    assert_eq!(d.len(), 1);
    assert_eq!(
        d[0].edge,
        Some(("fork".to_string(), "branch_a".to_string()))
    );
    assert!(d[0].message.contains("'thread_id'"));
    assert_eq!(
        d[0].fix.as_deref(),
        Some(
            "Remove 'thread_id': parallel branches inherit the thread resolved when the parallel node started"
        )
    );
}

#[test]
fn accepts_fidelity_on_the_parallel_node_itself() {
    let mut g = parallel_graph();
    set(&mut g, "fork", "fidelity", "truncate");
    assert!(inert(&g).is_empty());
}

#[test]
fn accepts_fidelity_on_branch_node_also_reached_by_normal_edge() {
    let mut g = parallel_graph();
    // branch_a is also a normal successor of merge, so fidelity resolves on that path and
    // is not inert.
    g.edges.push(Edge::new("merge", "branch_a"));
    set(&mut g, "branch_a", "fidelity", "truncate");
    assert!(inert(&g).is_empty());
}

#[test]
fn names_every_parallel_parent_of_a_shared_branch_node() {
    let mut g = parallel_graph();
    add(&mut g, node_with("fork2", &[("shape", "component")]));
    g.edges.push(Edge::new("start", "fork2"));
    g.edges.push(Edge::new("fork2", "branch_a"));
    set(&mut g, "branch_a", "fidelity", "truncate");
    let d = inert(&g);
    assert_eq!(d.len(), 1);
    assert!(d[0].message.contains("'fork', 'fork2'"));
    let fix = d[0].fix.as_deref().expect("diagnostic has a fix");
    assert!(fix.contains("'fork', 'fork2'"));
    assert!(fix.contains("parallel nodes"));
}

#[test]
fn accepts_graph_without_parallel_nodes() {
    let mut g = minimal_graph();
    add(
        &mut g,
        node_with("work", &[("shape", "tab"), ("fidelity", "truncate")]),
    );
    assert!(inert(&g).is_empty());
}

#[test]
fn inert_findings_name_edges_before_nodes() {
    let mut g = parallel_graph();
    set(&mut g, "branch_b", "thread_id", "impl");
    set(&mut g, "branch_b", "fidelity", "full");
    set(&mut g, "branch_a", "fidelity", "full");
    g.edges[2]
        .attrs
        .insert("fidelity".to_string(), AttrValue::String("full".to_string()));
    let d = inert(&g);
    assert_eq!(
        d.iter().map(|d| d.message.as_str()).collect::<Vec<_>>(),
        vec![
            "Edge fork -> branch_b sets 'fidelity', which is ignored on parallel branch edges: branches receive the context snapshot taken when 'fork' started",
            "Node 'branch_a' sets 'fidelity', but it only runs as a parallel branch (of 'fork'), where 'fidelity' is ignored: branches receive the context snapshot taken when the parallel node started",
            "Node 'branch_b' sets 'fidelity', but it only runs as a parallel branch (of 'fork'), where 'fidelity' is ignored: branches receive the context snapshot taken when the parallel node started",
            "Node 'branch_b' sets 'thread_id', but it only runs as a parallel branch (of 'fork'), where 'thread_id' is ignored: branches receive the context snapshot taken when the parallel node started",
        ]
    );
}

#[test]
fn fixes_fit_the_attribute() {
    let one = vec!["fork".to_string()];
    let two = vec!["a".to_string(), "b".to_string()];
    assert_eq!(quoted_list(&two), "'a', 'b'");
    assert_eq!(
        fix_message("fidelity", &one),
        "Set fidelity on the parallel node 'fork' (or its incoming edge) to control what every branch sees"
    );
    assert_eq!(
        fix_message("fidelity", &two),
        "Set fidelity on the parallel nodes 'a', 'b' (or their incoming edges) to control what every branch sees"
    );
    assert_eq!(fix_message("other", &one), "Remove 'other'");
}

#[test]
fn branches_know_their_parents() {
    let g = parallel_graph();
    let branches = ParallelBranches::new(&g);
    assert!(!branches.is_empty());
    assert!(branches.is_fork_edge(&g.edges[1]));
    assert!(!branches.is_fork_edge(&g.edges[0]));
    assert_eq!(
        branches.branch_targets(),
        vec!["branch_a".to_string(), "branch_b".to_string()]
    );
    assert_eq!(
        branches.branch_only_parents("branch_a"),
        Some(vec!["fork".to_string()])
    );
    assert_eq!(branches.branch_only_parents("merge"), None);
    assert_eq!(branches.branch_only_parents("start"), None);
    assert!(branches.is_branch_only_node("branch_b"));
    assert!(!branches.is_branch_only_node("fork"));
}
