//! The command-line interface: its commands as data, and the decisions the
//! commands make before and after talking to the management API.

use vstd::prelude::*;
use crate::text::{contains_text, text_contains};
use crate::config::{
    ClusterConfig, ConfigOverrides, NodeConfig, default_config, apply_overrides, is_default_config,
    with_overrides,
};
use crate::model_mode::ModelMode;
use crate::protocol::NodeSummary;
use crate::state::NodeRuntimeState;

verus! {

/// Output format for read commands.
#[derive(Debug, Clone, Copy, PartialEq, Eq, Structural)]
pub enum OutputFormat {
    Table,
    Json,
    Yaml,
}

impl Default for OutputFormat {
    fn default() -> (r: Self)
        ensures
            r == OutputFormat::Table,
    {
        OutputFormat::Table
    }
}

/// Writes command output in the selected format.
#[derive(Debug, Clone, Copy)]
pub struct OutputWriter {
    format: OutputFormat,
}

impl OutputWriter {
    /// The format this writer writes in.
    pub closed spec fn spec_format(self) -> OutputFormat {
        self.format
    }

    /// Create a new output writer.
    pub fn new(format: OutputFormat) -> (r: OutputWriter)
        ensures
            r.spec_format() == format,
    {
        OutputWriter { format }
    }

    /// The format this writer writes in.
    pub fn format(&self) -> (r: OutputFormat)
        ensures
            r == self.spec_format(),
    {
        self.format
    }

    /// Whether output is written as a table of text lines rather than as a
    /// serialised document.
    pub fn writes_table(&self) -> (r: bool)
        ensures
            r == (self.spec_format() == OutputFormat::Table),
    {
        match self.format {
            OutputFormat::Table => true,
            _ => false,
        }
    }
}

/// Ollama Cluster command line.
#[derive(Debug)]
pub struct Cli {
    /// Management API endpoint.
    pub endpoint: String,
    /// Path to configuration file.
    pub config: Option<String>,
    /// Output format for read commands.
    pub output: OutputFormat,
    pub command: Option<Commands>,
}

/// CLI subcommands.
#[derive(Debug, Clone)]
pub enum Commands {
    Dashboard,
    Admin { listen: String },
    Init {
        path: Option<String>,
        inference_listen: Option<String>,
        management_listen: Option<String>,
        database_path: Option<String>,
        nodes: Vec<String>,
        non_interactive: bool,
    },
    Serve,
    Status,
    Nodes,
    Health,
    Events,
    Node { command: NodeCommands },
    Model { command: ModelCommands },
    Models,
    Explain { model: String },
    Requests { command: Option<RequestCommands> },
    Config { command: ConfigCommands },
    Logs { follow: bool },
}

/// Node management subcommands.
#[derive(Debug, Clone)]
pub enum NodeCommands {
    Add { name: String, url: String, model_mode: String },
    Remove { name: String, force: bool, yes: bool },
    Enable { name: String },
    Disable { name: String },
    Drain { name: String },
    Inspect { name: String },
    Probe { name: String },
    Models { command: NodeModelCommands },
}

/// Per-node model subcommands.
#[derive(Debug, Clone)]
pub enum NodeModelCommands {
    Sync { name: String, dry_run: bool },
}

/// Model subcommands.
#[derive(Debug, Clone)]
pub enum ModelCommands {
    Inspect { name: String },
}

/// Request monitoring subcommands.
#[derive(Debug, Clone)]
pub enum RequestCommands {
    Watch,
    Cancel { id: String },
}

/// Configuration subcommands.
#[derive(Debug, Clone)]
pub enum ConfigCommands {
    Show,
    Validate,
    Reload,
}

/// The process exit code for an error message: 3 for configuration
/// problems, 4 when the cluster cannot be reached, 5 for something not
/// found, 6 for a rejected operation, 1 otherwise.
pub open spec fn exit_code_for(msg: Seq<char>) -> i32 {
    if contains_text(msg, "configuration"@) {
        3
    } else if contains_text(msg, "unavailable"@) || contains_text(msg, "connect"@) {
        4
    } else if contains_text(msg, "not found"@) {
        5
    } else if contains_text(msg, "rejected"@) {
        6
    } else {
        1
    }
}

/// The process exit code for an error with this message.
pub fn exit_code(msg: &str) -> (r: i32)
    ensures
        r == exit_code_for(msg@),
{
    if text_contains(msg, "configuration") {
        3
    } else if text_contains(msg, "unavailable") || text_contains(msg, "connect") {
        4
    } else if text_contains(msg, "not found") {
        5
    } else if text_contains(msg, "rejected") {
        6
    } else {
        1
    }
}

/// Whether `i` is the position of the first `@` in `s`.
pub open spec fn is_first_at(s: Seq<char>, i: int) -> bool {
    &&& 0 <= i < s.len()
    &&& s[i] == '@'
    &&& forall|j: int| 0 <= j < i ==> s[j] != '@'
}

/// A `name@url` node specification split at its first `@`.
pub open spec fn node_spec_parts(s: Seq<char>) -> Option<(Seq<char>, Seq<char>)> {
    if exists|i: int| #[trigger] is_first_at(s, i) {
        let i = choose|i: int| #[trigger] is_first_at(s, i);
        Some((s.take(i), s.skip(i + 1)))
    } else {
        None
    }
}

/// Split a `name@url` node specification at its first `@`.
pub fn split_node_spec(spec: &str) -> (r: Option<(String, String)>)
    ensures
        match node_spec_parts(spec@) {
            None => r is None,
            Some((name, url)) => r matches Some((n, u)) && n@ == name && u@ == url,
        },
{
    let n = spec.unicode_len();
    let mut i: usize = 0;
    while i < n
        invariant
            n == spec@.len(),
            0 <= i <= n,
            forall|j: int| 0 <= j < i ==> spec@[j] != '@',
        decreases n - i,
    {
        if spec.get_char(i) == '@' {
            proof {
                assert(is_first_at(spec@, i as int));
                let c = choose|c: int| #[trigger] is_first_at(spec@, c);
                assert(c == i as int);
            }
            let name = spec.substring_char(0, i).to_owned();
            let url = spec.substring_char(i + 1, n).to_owned();
            proof {
                assert(spec@.take(i as int) =~= spec@.subrange(0, i as int));
                assert(spec@.skip(i + 1) =~= spec@.subrange(i + 1, n as int));
            }
            return Some((name, url));
        }
        i = i + 1;
    }
    proof {
        assert forall|k: int| !#[trigger] is_first_at(spec@, k) by {
            if 0 <= k < n {
                assert(spec@[k] != '@');
            }
        }
    }
    None
}

/// The node an `init --node name@url` registers: discovery mode, no
/// configured models, 8 concurrent requests, priority 0, no labels.
pub open spec fn is_init_node(n: NodeConfig, name: Seq<char>, url: Seq<char>) -> bool {
    &&& n.name@ == name
    &&& n.url@ == url
    &&& n.model_mode == ModelMode::Discover
    &&& n.configured_models@.len() == 0
    &&& n.max_concurrent == 8
    &&& n.priority == 0
    &&& n.labels@.len() == 0
}

/// The overrides `init` applies to the default configuration.
pub open spec fn init_overrides(
    inference_listen: Option<String>,
    management_listen: Option<String>,
    database_path: Option<String>,
) -> ConfigOverrides {
    ConfigOverrides { inference_listen, management_listen, database_path, log_level: None }
}

/// The message given for a node specification without `@`.
pub open spec fn bad_node_spec_message() -> Seq<char> {
    "node spec must be name@url (e.g. gpu-01@http://127.0.0.1:11435)"@
}

/// The configuration `ocluster init` writes: the defaults with the given
/// listen addresses and database path, and a node for each `name@url`
/// specification, in order. Fails on the first specification without `@`.
pub fn init_config_with(
    inference_listen: Option<String>,
    management_listen: Option<String>,
    database_path: Option<String>,
    nodes: &[String],
) -> (r: Result<ClusterConfig, String>)
    ensures
        r is Err <==> exists|k: int| 0 <= k < nodes@.len() && node_spec_parts(#[trigger] nodes@[k]@) is None,
        r matches Err(e) ==> e@ == bad_node_spec_message(),
        r matches Ok(c) ==> {
            &&& exists|d: ClusterConfig| #[trigger] is_default_config(d) && c == (ClusterConfig {
                nodes: c.nodes,
                ..with_overrides(d, init_overrides(inference_listen, management_listen, database_path))
            })
            &&& c.nodes@.len() == nodes@.len()
            &&& forall|k: int| 0 <= k < nodes@.len() ==> {
                let parts = node_spec_parts(#[trigger] nodes@[k]@)->0;
                is_init_node(c.nodes@[k], parts.0, parts.1)
            }
        },
{
    let mut config = default_config();
    let ghost d = config;
    let overrides = ConfigOverrides {
        inference_listen,
        management_listen,
        database_path,
        log_level: None,
    };
    apply_overrides(&mut config, &overrides);
    let ghost base = config;
    let mut i: usize = 0;
    while i < nodes.len()
        invariant
            0 <= i <= nodes@.len(),
            is_default_config(d),
            base == with_overrides(d, overrides),
            overrides == init_overrides(inference_listen, management_listen, database_path),
            is_default_config(d) ==> d.nodes@.len() == 0,
            base.nodes@.len() == 0,
            config == (ClusterConfig { nodes: config.nodes, ..base }),
            config.nodes@.len() == i,
            forall|k: int| 0 <= k < i ==> node_spec_parts(#[trigger] nodes@[k]@) is Some,
            forall|k: int| 0 <= k < i ==> {
                let parts = node_spec_parts(#[trigger] nodes@[k]@)->0;
                is_init_node(config.nodes@[k], parts.0, parts.1)
            },
        decreases nodes@.len() - i,
    {
        match split_node_spec(nodes[i].as_str()) {
            None => {
                return Err("node spec must be name@url (e.g. gpu-01@http://127.0.0.1:11435)".to_owned());
            },
            Some((name, url)) => {
                config.nodes.push(
                    NodeConfig {
                        name,
                        url,
                        model_mode: ModelMode::Discover,
                        configured_models: Vec::new(),
                        max_concurrent: 8,
                        priority: 0,
                        labels: Vec::new(),
                    },
                );
            },
        }
        i = i + 1;
    }
    Ok(config)
}

/// Node removal goes ahead only when confirmed with `--yes` or `--force`.
pub fn confirm_removal(force: bool, yes: bool) -> (r: Result<(), String>)
    ensures
        r is Ok <==> (force || yes),
        r matches Err(e) ==> e@ == "use --yes or --force to confirm node removal"@,
{
    if !force && !yes {
        Err("use --yes or --force to confirm node removal".to_owned())
    } else {
        Ok(())
    }
}

/// The table lines of the health summary: one `UNAVAILABLE: name` line per
/// unavailable node, in order, or "No nodes registered" without nodes.
pub open spec fn health_lines_of(nodes: Seq<NodeSummary>) -> Seq<Seq<char>> {
    if nodes.len() == 0 {
        seq!["No nodes registered"@]
    } else {
        nodes.filter(|n: NodeSummary| n.runtime_state == NodeRuntimeState::Unavailable).map_values(
            |n: NodeSummary| "UNAVAILABLE: "@ + n.name@,
        )
    }
}

/// The table lines of the health summary.
pub fn health_lines(nodes: &[NodeSummary]) -> (r: Vec<String>)
    ensures
        r@.map_values(|s: String| s@) == health_lines_of(nodes@),
{
    let mut out: Vec<String> = Vec::new();
    if nodes.len() == 0 {
        out.push("No nodes registered".to_owned());
        assert(out@.map_values(|s: String| s@) =~= health_lines_of(nodes@));
        return out;
    }
    let ghost pred = |n: NodeSummary| n.runtime_state == NodeRuntimeState::Unavailable;
    let ghost f = |n: NodeSummary| "UNAVAILABLE: "@ + n.name@;
    let mut i: usize = 0;
    while i < nodes.len()
        invariant
            0 <= i <= nodes@.len(),
            pred == (|n: NodeSummary| n.runtime_state == NodeRuntimeState::Unavailable),
            f == (|n: NodeSummary| "UNAVAILABLE: "@ + n.name@),
            out@.map_values(|s: String| s@) == nodes@.take(i as int).filter(pred).map_values(f),
        decreases nodes@.len() - i,
    {
        proof {
            let s = nodes@;
            assert(s.take(i + 1) =~= s.take(i as int).push(s[i as int]));
            s.take(i as int).lemma_filter_push(s[i as int], pred);
        }
        let unavailable = match nodes[i].runtime_state {
            NodeRuntimeState::Unavailable => true,
            _ => false,
        };
        if unavailable {
            let ghost before = out@;
            let mut line = "UNAVAILABLE: ".to_owned();
            line.append(nodes[i].name.as_str());
            out.push(line);
            proof {
                let s = nodes@;
                assert(out@.map_values(|s: String| s@) =~= before.map_values(|s: String| s@).push(
                    f(s[i as int]),
                ));
                assert(s.take(i + 1).filter(pred).map_values(f) =~= s.take(i as int).filter(
                    pred,
                ).map_values(f).push(f(s[i as int])));
            }
        }
        i = i + 1;
    }
    proof {
        assert(nodes@.take(nodes@.len() as int) =~= nodes@);
    }
    out
}

} // verus!
