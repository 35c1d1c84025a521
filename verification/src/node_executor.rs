//! The local Node executor: how its process is started and hardened, and how a request to it goes.

use vstd::prelude::*;
use vstd::string::*;
use crate::json::{
    distinct_keys, find_member, has_member, lemma_member_index, lemma_object_tree, member_index,
    members, tree_wf, Json, JsonTree,
};
use crate::text::{
    begins_with, concat, decimal, digit, is_listed, lemma_decimal_digits, listed, starts_with,
    texts,
};

verus! {

/// How long to wait between two health checks, in milliseconds.
pub const HEALTH_CHECK_INTERVAL_MS: u64 = 100;

/// How often the health of a new process is checked.
pub const MAX_HEALTH_CHECK_ATTEMPTS: u32 = 50;

/// The most CPU time of the process, in seconds.
pub const CPU_CAP_SECS: u64 = 86_400;

/// The most memory of the process, in bytes.
pub const MEMORY_CAP_BYTES: u64 = 8_589_934_592;

/// The most open files of the process.
pub const NOFILE_CAP: u64 = 4096;

/// The environment variables that the process is given. It runs code that is not trusted, so it
/// sees nothing else of the backend's environment.
pub open spec fn env_allowlist() -> Seq<&'static str> {
    seq!["HOME", "LANG", "NODE_PATH", "PATH", "TZ", "UTC"]
}

/// The environment variables that the process is given.
pub fn node_executor_env_allowlist() -> (r: [&'static str; 6])
    ensures
        r@ == env_allowlist(),
{
    let names: [&'static str; 6] = ["HOME", "LANG", "NODE_PATH", "PATH", "TZ", "UTC"];
    assert(names@ =~= env_allowlist());
    names
}

/// No variable of the backend itself is handed to the process.
pub proof fn backend_secrets_stay_inside(name: Seq<char>)
    requires
        begins_with(name, "CONVEX_"@),
    ensures
        !listed(env_allowlist(), name),
{
    reveal_strlit("CONVEX_");
    reveal_strlit("HOME");
    reveal_strlit("LANG");
    reveal_strlit("NODE_PATH");
    reveal_strlit("PATH");
    reveal_strlit("TZ");
    reveal_strlit("UTC");
    let names = env_allowlist();
    assert(name[0] == 'C') by {
        assert(name.take("CONVEX_"@.len() as int)[0] == "CONVEX_"@[0]);
    }
    assert forall|i: int| 0 <= i < names.len() implies (#[trigger] names[i])@ != name by {
        assert("HOME"@[0] == 'H' && "LANG"@[0] == 'L' && "NODE_PATH"@[0] == 'N' && "PATH"@[0] == 'P'
            && "TZ"@[0] == 'T' && "UTC"@[0] == 'U');
    }
}

/// Environment variables, by name.
pub open spec fn named_vars<V>(vars: Seq<(String, V)>) -> Seq<(Seq<char>, V)> {
    vars.map_values(|p: (String, V)| (p.0@, p.1))
}

/// The variables that the process is allowed to see.
pub open spec fn allowed_vars<V>(vars: Seq<(Seq<char>, V)>) -> Seq<(Seq<char>, V)>
    decreases vars.len(),
{
    if vars.len() == 0 {
        Seq::empty()
    } else if listed(env_allowlist(), vars[0].0) {
        seq![vars[0]] + allowed_vars(vars.skip(1))
    } else {
        allowed_vars(vars.skip(1))
    }
}

/// The whole environment of the process: what it is allowed to see of the backend's, the directory
/// for its temporary files, and the first pause before it calls back again, where one is set.
pub open spec fn child_vars<V>(
    vars: Seq<(Seq<char>, V)>,
    temp_dir: V,
    initial_backoff_ms: Option<V>,
) -> Seq<(Seq<char>, V)> {
    allowed_vars(vars) + seq![("TMPDIR"@, temp_dir)] + (match initial_backoff_ms {
        Some(ms) => seq![("CALLBACK_INITIAL_BACKOFF_MS"@, ms)],
        None => Seq::empty(),
    })
}

/// Put together the environment of the process. The values may be of any form in which the system
/// keeps them.
pub fn child_environment<V>(
    vars: Vec<(String, V)>,
    temp_dir: V,
    initial_backoff_ms: Option<V>,
) -> (r: Vec<(String, V)>)
    ensures
        named_vars(r@) == child_vars(named_vars(vars@), temp_dir, initial_backoff_ms),
{
    let names = node_executor_env_allowlist();
    let ghost all = named_vars(vars@);
    let mut left = vars;
    let mut out: Vec<(String, V)> = Vec::new();
    assert(named_vars(out@) + allowed_vars(all) =~= allowed_vars(all));
    while left.len() > 0
        invariant
            names@ == env_allowlist(),
            allowed_vars(all) == named_vars(out@) + allowed_vars(named_vars(left@)),
        decreases left.len(),
    {
        let ghost before = named_vars(left@);
        let ghost kept = named_vars(out@);
        let var = left.remove(0);
        let ghost head = (var.0@, var.1);
        proof {
            assert(before[0] == head);
            assert(before.skip(1) =~= named_vars(left@));
        }
        if is_listed(&names, var.0.as_str()) {
            out.push(var);
            proof {
                assert(named_vars(out@) =~= kept.push(head));
                assert(kept + (seq![head] + allowed_vars(named_vars(left@))) =~= kept.push(head)
                    + allowed_vars(named_vars(left@)));
            }
        }
    }
    assert(named_vars(out@) =~= allowed_vars(all));
    let ghost kept = named_vars(out@);
    out.push(("TMPDIR".to_owned(), temp_dir));
    assert(named_vars(out@) =~= kept + seq![("TMPDIR"@, temp_dir)]);
    let ghost kept = named_vars(out@);
    if let Some(ms) = initial_backoff_ms {
        out.push(("CALLBACK_INITIAL_BACKOFF_MS".to_owned(), ms));
        assert(named_vars(out@) =~= kept + seq![("CALLBACK_INITIAL_BACKOFF_MS"@, ms)]);
    }
    assert(kept + Seq::<(Seq<char>, V)>::empty() =~= kept);
    out
}

proof fn lemma_allowed_listed<V>(vars: Seq<(Seq<char>, V)>, i: int)
    requires
        0 <= i < allowed_vars(vars).len(),
    ensures
        listed(env_allowlist(), allowed_vars(vars)[i].0),
    decreases vars.len(),
{
    if vars.len() > 0 {
        if listed(env_allowlist(), vars[0].0) {
            if i > 0 {
                lemma_allowed_listed(vars.skip(1), i - 1);
            }
        } else {
            lemma_allowed_listed(vars.skip(1), i);
        }
    }
}

/// The process sees no variable of the backend but those on the list, and none of the backend's own
/// settings, which hold its secrets.
pub proof fn child_sees_no_secrets<V>(
    vars: Seq<(Seq<char>, V)>,
    temp_dir: V,
    initial_backoff_ms: Option<V>,
    i: int,
)
    requires
        0 <= i < child_vars(vars, temp_dir, initial_backoff_ms).len(),
    ensures
        ({
            let name = child_vars(vars, temp_dir, initial_backoff_ms)[i].0;
            &&& listed(env_allowlist(), name) || name == "TMPDIR"@ || name
                == "CALLBACK_INITIAL_BACKOFF_MS"@
            &&& !begins_with(name, "CONVEX_"@)
        }),
{
    let name = child_vars(vars, temp_dir, initial_backoff_ms)[i].0;
    if i < allowed_vars(vars).len() {
        lemma_allowed_listed(vars, i);
        if begins_with(name, "CONVEX_"@) {
            backend_secrets_stay_inside(name);
        }
    } else {
        reveal_strlit("TMPDIR");
        reveal_strlit("CALLBACK_INITIAL_BACKOFF_MS");
        reveal_strlit("CONVEX_");
        if begins_with(name, "CONVEX_"@) {
            assert(name.take("CONVEX_"@.len() as int)[1] == "CONVEX_"@[1]);
            assert("CONVEX_"@[1] == 'O');
            assert("TMPDIR"@[1] == 'M');
            assert("CALLBACK_INITIAL_BACKOFF_MS"@[1] == 'A');
        }
    }
}

/// The code and the message of an error of the user's making.
#[derive(Debug)]
pub struct UserError {
    pub code: String,
    pub message: String,
}

/// Whether a version of Node is one that works.
pub open spec fn supported_version(version: Seq<char>) -> bool {
    begins_with(version, "v20."@) || begins_with(version, "v22."@) || begins_with(version, "v24."@)
}

/// Check the version that Node prints of itself.
pub fn check_node_version(version: &str) -> (r: Result<(), UserError>)
    ensures
        if supported_version(version@) {
            r is Ok
        } else {
            r matches Err(e) && e.code@ == "DeploymentNotConfiguredForNodeActions"@ && e.message@
                == "Deployment is not configured to deploy \"use node\" actions. Node.js v20, 22, or 24 is not installed. Install a supported Node.js version with nvm (https://github.com/nvm-sh/nvm) to deploy Node.js actions."@
        },
{
    if starts_with(version, "v20.") || starts_with(version, "v22.") || starts_with(version, "v24.")
    {
        Ok(())
    } else {
        Err(
            UserError {
                code: "DeploymentNotConfiguredForNodeActions".to_owned(),
                message:
                    "Deployment is not configured to deploy \"use node\" actions. Node.js v20, 22, or 24 is not installed. Install a supported Node.js version with nvm (https://github.com/nvm-sh/nvm) to deploy Node.js actions.".to_owned(),
            },
        )
    }
}

/// The preferred Node below the directory of nvm.
pub fn preferred_node_path(version: &str) -> (r: String)
    ensures
        r@ == "versions/node/v"@ + version@ + "/bin/node"@,
{
    concat(concat("versions/node/v", version).as_str(), "/bin/node")
}

/// The Node to run: the preferred one where it is there, and otherwise the one on the path.
pub fn choose_node_path(preferred: String, preferred_exists: bool) -> (r: String)
    ensures
        r@ == (if preferred_exists {
            preferred@
        } else {
            "node"@
        }),
{
    if preferred_exists {
        preferred
    } else {
        "node".to_owned()
    }
}

/// The arguments of the process.
pub fn node_arguments(source_path: &str, socket_path: &str, temp_dir: &str) -> (r: Vec<String>)
    ensures
        r@.len() == 5,
        r@[0]@ == source_path@,
        r@[1]@ == "--ipc-path"@,
        r@[2]@ == socket_path@,
        r@[3]@ == "--tempdir"@,
        r@[4]@ == temp_dir@,
{
    let mut out: Vec<String> = Vec::new();
    out.push(source_path.to_owned());
    out.push("--ipc-path".to_owned());
    out.push(socket_path.to_owned());
    out.push("--tempdir".to_owned());
    out.push(temp_dir.to_owned());
    out
}

/// A hexadecimal digit.
pub open spec fn hex_digit(d: nat) -> char {
    if d < 10 {
        (48 + d) as char
    } else {
        (87 + d) as char
    }
}

/// The last `width` hexadecimal digits of a number.
pub open spec fn hex(n: nat, width: nat) -> Seq<char>
    decreases width,
{
    if width == 0 {
        Seq::empty()
    } else {
        hex(n / 16, (width - 1) as nat).push(hex_digit(n % 16))
    }
}

fn to_hex_digit(d: u8) -> (r: char)
    requires
        d < 16,
    ensures
        r == hex_digit(d as nat),
{
    if d < 10 {
        (48u8 + d) as char
    } else {
        (87u8 + d) as char
    }
}

fn to_hex(n: u64, width: u8) -> (r: String)
    ensures
        r@ == hex(n as nat, width as nat),
    decreases width,
{
    if width == 0 {
        let none = String::new();
        assert(none@ =~= Seq::empty());
        none
    } else {
        let mut s = to_hex(n / 16, width - 1);
        s.push(to_hex_digit((n % 16) as u8));
        s
    }
}

/// The name of the pipe to the process, where there are no sockets in the file system.
pub fn pipe_name(n: u64) -> (r: String)
    ensures
        r@ == "\\\\.\\pipe\\cvx-node-executor-"@ + hex(n as nat, 16),
{
    concat("\\\\.\\pipe\\cvx-node-executor-", to_hex(n, 16).as_str())
}

/// A resource that is capped.
#[derive(Debug, Clone, Copy, PartialEq, Eq, Structural)]
pub enum Resource {
    CpuSeconds,
    DataBytes,
    OpenFiles,
}

/// The cap of a resource.
pub open spec fn cap_of(res: Resource) -> u64 {
    match res {
        Resource::CpuSeconds => (24 * 60 * 60) as u64,
        Resource::DataBytes => (8 * 1024 * 1024 * 1024) as u64,
        Resource::OpenFiles => 4096,
    }
}

/// The limit that the process gets on a resource: the tighter of the cap and the hard limit that
/// it inherits. A limit of 0 is left alone.
pub fn harden_child_process(res: Resource, inherited_max: u64) -> (r: Option<u64>)
    ensures
        r == (if inherited_max == 0 {
            None
        } else if inherited_max < cap_of(res) {
            Some(inherited_max)
        } else {
            Some(cap_of(res))
        }),
{
    let cap = match res {
        Resource::CpuSeconds => CPU_CAP_SECS,
        Resource::DataBytes => MEMORY_CAP_BYTES,
        Resource::OpenFiles => NOFILE_CAP,
    };
    let hard = if inherited_max < cap {
        inherited_max
    } else {
        cap
    };
    if hard == 0 {
        None
    } else {
        Some(hard)
    }
}

/// What comes after a health check.
#[derive(Debug, Clone, Copy, PartialEq, Eq, Structural)]
pub enum HealthNext {
    /// The process is ready.
    Ready,
    /// Wait, and check again; how many checks were made.
    Wait { attempts: u32 },
    /// The process did not become ready.
    GiveUp,
}

/// Decide what comes after a health check.
pub fn health_checked(attempts: u32, healthy: bool) -> (r: HealthNext)
    requires
        attempts < MAX_HEALTH_CHECK_ATTEMPTS,
    ensures
        r == (if healthy {
            HealthNext::Ready
        } else if attempts + 1 < MAX_HEALTH_CHECK_ATTEMPTS {
            HealthNext::Wait { attempts: (attempts + 1) as u32 }
        } else {
            HealthNext::GiveUp
        }),
{
    if healthy {
        HealthNext::Ready
    } else if attempts + 1 < MAX_HEALTH_CHECK_ATTEMPTS {
        HealthNext::Wait { attempts: attempts + 1 }
    } else {
        HealthNext::GiveUp
    }
}

/// What is said where the process did not become ready.
pub const UNHEALTHY: &'static str = "Node executor server failed to start and become healthy";

/// What a response gives next.
#[derive(Debug)]
pub enum StreamEvent {
    Chunk(Vec<u8>),
    End,
    Failed(String),
    TimedOut,
}

/// A part of a response.
#[derive(Debug)]
pub enum StreamPart {
    Chunk(Vec<u8>),
    /// The response is over, in time or not.
    Complete { in_time: bool },
}

/// The part that an event becomes, and whether it is the last one; or what failed.
pub fn response_part(event: StreamEvent) -> (r: Result<(StreamPart, bool), String>)
    ensures
        match event {
            StreamEvent::Chunk(b) => r matches Ok((StreamPart::Chunk(got), last)) && got == b
                && !last,
            StreamEvent::End => r matches Ok((StreamPart::Complete { in_time }, last)) && in_time
                && last,
            StreamEvent::TimedOut => r matches Ok((StreamPart::Complete { in_time }, last))
                && !in_time && last,
            StreamEvent::Failed(e) => r matches Err(got) && got == e,
        },
{
    match event {
        StreamEvent::Chunk(b) => Ok((StreamPart::Chunk(b), false)),
        StreamEvent::End => Ok((StreamPart::Complete { in_time: true }, true)),
        StreamEvent::TimedOut => Ok((StreamPart::Complete { in_time: false }, true)),
        StreamEvent::Failed(e) => Err(e),
    }
}

/// The stages of a request.
#[derive(Debug, Clone, Copy, PartialEq, Eq, Structural)]
pub enum InvokeStage {
    /// The process is looked for.
    FindServer,
    /// The process is started.
    StartServer,
    /// The request is sent.
    Send,
    /// The text of an error response is read.
    ReadError,
    /// The response is read.
    ReadResponse,
}

/// What became of a stage.
#[derive(Debug)]
pub enum InvokeEvent {
    /// Whether the process is there.
    Server { running: bool },
    Started,
    Failed(String),
    /// The request could not be sent in time.
    SendTimedOut,
    /// The process could not be reached.
    ConnectFailed(String),
    /// The status of the response.
    Status(u16),
    /// The text of an error response.
    ErrorText(String),
    /// What the function returned.
    Payload(Json),
    /// What stands for a response that the process did not finish.
    Replacement(Json),
}

/// Whether an event can come at a stage.
pub open spec fn invoke_event_fits(stage: InvokeStage, event: InvokeEvent) -> bool {
    match stage {
        InvokeStage::FindServer => event is Server,
        InvokeStage::StartServer => event is Started || event is Failed,
        InvokeStage::Send => event is Status || event is SendTimedOut || event is ConnectFailed
            || event is Failed,
        InvokeStage::ReadError => event is ErrorText || event is Failed,
        InvokeStage::ReadResponse => event is Payload || event is Replacement || event is Failed,
    }
}

/// What a request comes to, as content.
pub enum OutcomeTree {
    Response(JsonTree),
    TimedOut,
    ArgsTooLarge,
    Error(Seq<char>),
}

/// What a request comes to.
#[derive(Debug)]
pub enum InvokeOutcome {
    /// A response.
    Response(Json),
    /// The response that stands for a timeout.
    TimedOut,
    /// The arguments are too large.
    ArgsTooLarge,
    /// An error.
    Error(String),
}

impl View for InvokeOutcome {
    type V = OutcomeTree;

    open spec fn view(&self) -> OutcomeTree {
        match *self {
            InvokeOutcome::Response(j) => OutcomeTree::Response(j.tree()),
            InvokeOutcome::TimedOut => OutcomeTree::TimedOut,
            InvokeOutcome::ArgsTooLarge => OutcomeTree::ArgsTooLarge,
            InvokeOutcome::Error(e) => OutcomeTree::Error(e@),
        }
    }
}

/// What comes after a stage, as content.
pub enum InvokeNextTree {
    Go(InvokeStage),
    Finish(OutcomeTree, bool),
}

/// What comes after a stage.
#[derive(Debug)]
pub enum InvokeNext {
    Go(InvokeStage),
    /// The request is over, and the process is dropped or not, to be started again by the next
    /// request.
    Finish { outcome: InvokeOutcome, drop_server: bool },
}

impl View for InvokeNext {
    type V = InvokeNextTree;

    open spec fn view(&self) -> InvokeNextTree {
        match *self {
            InvokeNext::Go(s) => InvokeNextTree::Go(s),
            InvokeNext::Finish { outcome, drop_server } => InvokeNextTree::Finish(
                outcome@,
                drop_server,
            ),
        }
    }
}

/// Whether a payload says that the process is exiting.
pub open spec fn says_exiting(t: JsonTree) -> bool {
    match t {
        JsonTree::Object(es) => has_member(es, "exitingProcess"@) && es[member_index(
            es,
            "exitingProcess"@,
        )].1 == JsonTree::Bool(true),
        _ => false,
    }
}

/// Whether a status is that of an error.
pub open spec fn error_status(status: u16) -> bool {
    400 <= status <= 599
}

/// What comes after a stage.
pub open spec fn invoke_next(stage: InvokeStage, event: InvokeEvent) -> InvokeNextTree {
    match (stage, event) {
        (InvokeStage::FindServer, InvokeEvent::Server { running }) => InvokeNextTree::Go(
            if running {
                InvokeStage::Send
            } else {
                InvokeStage::StartServer
            },
        ),
        (InvokeStage::StartServer, InvokeEvent::Failed(_)) => InvokeNextTree::Finish(
            OutcomeTree::Error("Failed to create inner local node executor"@),
            false,
        ),
        (InvokeStage::StartServer, _) => InvokeNextTree::Go(InvokeStage::Send),
        (InvokeStage::Send, InvokeEvent::SendTimedOut) => InvokeNextTree::Finish(
            OutcomeTree::TimedOut,
            false,
        ),
        (InvokeStage::Send, InvokeEvent::ConnectFailed(_)) => InvokeNextTree::Finish(
            OutcomeTree::Error("Node server request failed"@),
            true,
        ),
        (InvokeStage::Send, InvokeEvent::Failed(_)) => InvokeNextTree::Finish(
            OutcomeTree::Error("Node server request failed"@),
            false,
        ),
        (InvokeStage::Send, InvokeEvent::Status(status)) => if !error_status(status) {
            InvokeNextTree::Go(InvokeStage::ReadResponse)
        } else if status == 413 {
            InvokeNextTree::Finish(OutcomeTree::ArgsTooLarge, false)
        } else {
            InvokeNextTree::Go(InvokeStage::ReadError)
        },
        (InvokeStage::ReadError, InvokeEvent::ErrorText(text)) => InvokeNextTree::Finish(
            OutcomeTree::Error("Node executor server returned error: "@ + text@),
            false,
        ),
        (InvokeStage::ReadResponse, InvokeEvent::Payload(j)) => InvokeNextTree::Finish(
            OutcomeTree::Response(j.tree()),
            says_exiting(j.tree()),
        ),
        (InvokeStage::ReadResponse, InvokeEvent::Replacement(j)) => InvokeNextTree::Finish(
            OutcomeTree::Response(j.tree()),
            false,
        ),
        (_, InvokeEvent::Failed(e)) => InvokeNextTree::Finish(OutcomeTree::Error(e@), false),
        _ => InvokeNextTree::Finish(OutcomeTree::Error(Seq::empty()), false),
    }
}

fn is_exiting(payload: &Json) -> (r: bool)
    ensures
        r == says_exiting(payload.tree()),
{
    if let Json::Object(es) = payload {
        proof {
            lemma_object_tree(*es);
            lemma_member_index(members(es@), "exitingProcess"@);
        }
        if let Some(i) = find_member(es, "exitingProcess") {
            if let Json::Bool(b) = &es[i].1 {
                return *b;
            }
        }
    }
    false
}

fn fail(message: &str) -> (r: InvokeNext)
    ensures
        r@ == InvokeNextTree::Finish(OutcomeTree::Error(message@), false),
{
    InvokeNext::Finish { outcome: InvokeOutcome::Error(message.to_owned()), drop_server: false }
}

/// Decide what comes after a stage of a request.
pub fn invoke(stage: InvokeStage, event: InvokeEvent) -> (r: InvokeNext)
    requires
        invoke_event_fits(stage, event),
    ensures
        r@ == invoke_next(stage, event),
{
    match event {
        InvokeEvent::Server { running } => if running {
            InvokeNext::Go(InvokeStage::Send)
        } else {
            InvokeNext::Go(InvokeStage::StartServer)
        },
        InvokeEvent::Started => InvokeNext::Go(InvokeStage::Send),
        InvokeEvent::Failed(e) => match stage {
            InvokeStage::StartServer => fail("Failed to create inner local node executor"),
            InvokeStage::Send => fail("Node server request failed"),
            _ => fail(e.as_str()),
        },
        InvokeEvent::SendTimedOut => InvokeNext::Finish {
            outcome: InvokeOutcome::TimedOut,
            drop_server: false,
        },
        InvokeEvent::ConnectFailed(_) => InvokeNext::Finish {
            outcome: InvokeOutcome::Error("Node server request failed".to_owned()),
            drop_server: true,
        },
        InvokeEvent::Status(status) => if status < 400 || status > 599 {
            InvokeNext::Go(InvokeStage::ReadResponse)
        } else if status == 413 {
            InvokeNext::Finish { outcome: InvokeOutcome::ArgsTooLarge, drop_server: false }
        } else {
            InvokeNext::Go(InvokeStage::ReadError)
        },
        InvokeEvent::ErrorText(text) => fail(
            concat("Node executor server returned error: ", text.as_str()).as_str(),
        ),
        InvokeEvent::Payload(j) => {
            let drop_server = is_exiting(&j);
            InvokeNext::Finish { outcome: InvokeOutcome::Response(j), drop_server }
        },
        InvokeEvent::Replacement(j) => InvokeNext::Finish {
            outcome: InvokeOutcome::Response(j),
            drop_server: false,
        },
    }
}

/// The process is dropped only where it cannot be reached, or says itself that it is exiting.
pub proof fn server_is_dropped_for_cause(stage: InvokeStage, event: InvokeEvent)
    requires
        invoke_event_fits(stage, event),
        invoke_next(stage, event) matches InvokeNextTree::Finish(_, dropped) && dropped,
    ensures
        event is ConnectFailed || (event matches InvokeEvent::Payload(j) && says_exiting(j.tree())),
{
}

/// How far a request is.
pub open spec fn invoke_rank(stage: InvokeStage) -> int {
    match stage {
        InvokeStage::FindServer => 0,
        InvokeStage::StartServer => 1,
        InvokeStage::Send => 2,
        InvokeStage::ReadError => 3,
        InvokeStage::ReadResponse => 3,
    }
}

/// Every request ends: its stages come in order.
pub proof fn requests_end(stage: InvokeStage, event: InvokeEvent)
    requires
        invoke_event_fits(stage, event),
    ensures
        invoke_next(stage, event) matches InvokeNextTree::Go(next) ==> invoke_rank(next)
            > invoke_rank(stage),
{
}

proof fn lemma_allowed_joined<V>(a: Seq<(Seq<char>, V)>, b: Seq<(Seq<char>, V)>)
    ensures
        allowed_vars(a + b) == allowed_vars(a) + allowed_vars(b),
    decreases a.len(),
{
    if a.len() == 0 {
        assert(a + b =~= b);
        assert(allowed_vars(a) + allowed_vars(b) =~= allowed_vars(b));
    } else {
        lemma_allowed_joined(a.skip(1), b);
        assert((a + b)[0] == a[0]);
        assert((a + b).skip(1) =~= a.skip(1) + b);
        assert(allowed_vars(a + b) =~= allowed_vars(a) + allowed_vars(b));
    }
}

/// The child inherits each variable of the backend that is on the list, with its value, in the
/// order in which the backend has them, and none that is not; and the list names six variables.
pub proof fn listed_variables_are_inherited<V>(
    before: Seq<(Seq<char>, V)>,
    name: Seq<char>,
    value: V,
    after: Seq<(Seq<char>, V)>,
)
    ensures
        name == "HOME"@ || name == "LANG"@ || name == "NODE_PATH"@ || name == "PATH"@ || name
            == "TZ"@ || name == "UTC"@ ==> allowed_vars(before + seq![(name, value)] + after)
            == allowed_vars(before) + seq![(name, value)] + allowed_vars(after),
        !(name == "HOME"@ || name == "LANG"@ || name == "NODE_PATH"@ || name == "PATH"@ || name
            == "TZ"@ || name == "UTC"@) ==> allowed_vars(before + seq![(name, value)] + after)
            == allowed_vars(before) + allowed_vars(after),
        allowed_vars(Seq::<(Seq<char>, V)>::empty()).len() == 0,
{
    assert(env_allowlist()[0]@ == "HOME"@);
    assert(env_allowlist()[1]@ == "LANG"@);
    assert(env_allowlist()[2]@ == "NODE_PATH"@);
    assert(env_allowlist()[3]@ == "PATH"@);
    assert(env_allowlist()[4]@ == "TZ"@);
    assert(env_allowlist()[5]@ == "UTC"@);
    let one = seq![(name, value)];
    lemma_allowed_joined(before + one, after);
    lemma_allowed_joined(before, one);
    assert(one[0] == (name, value));
    assert(one.skip(1) =~= Seq::empty());
    assert(allowed_vars(one.skip(1)) =~= Seq::empty());
    if listed(env_allowlist(), name) {
        assert(allowed_vars(one) =~= one);
    } else {
        assert(allowed_vars(one) =~= Seq::empty());
        assert(allowed_vars(before) + Seq::<(Seq<char>, V)>::empty() =~= allowed_vars(before));
    }
}

/// Beside what it inherits, the child is told of its directory for temporary files, and of the
/// backoff of its callbacks where one is set.
pub proof fn child_is_told_of_its_directory<V>(
    vars: Seq<(Seq<char>, V)>,
    temp_dir: V,
    initial_backoff_ms: Option<V>,
)
    ensures
        ({
            let inherited = allowed_vars(vars).len() as int;
            let told = child_vars(vars, temp_dir, initial_backoff_ms);
            &&& told.take(inherited) == allowed_vars(vars)
            &&& told[inherited] == ("TMPDIR"@, temp_dir)
            &&& match initial_backoff_ms {
                Some(ms) => told.len() == inherited + 2 && told[inherited + 1] == (
                    "CALLBACK_INITIAL_BACKOFF_MS"@,
                    ms,
                ),
                None => told.len() == inherited + 1,
            }
        }),
{
    let told = child_vars(vars, temp_dir, initial_backoff_ms);
    assert(told.take(allowed_vars(vars).len() as int) =~= allowed_vars(vars));
}

/// A version is supported exactly where its major number is 20, 22 or 24.
pub proof fn even_majors_are_supported(major: nat, rest: Seq<char>)
    ensures
        supported_version(seq!['v'] + decimal(major) + seq!['.'] + rest) <==> major == 20 || major
            == 22 || major == 24,
{
    reveal_strlit("v20.");
    reveal_strlit("v22.");
    reveal_strlit("v24.");
    reveal_with_fuel(decimal, 4);
    let v = seq!['v'] + decimal(major) + seq!['.'] + rest;
    let head = v.take(4);
    assert(v.len() >= 3);
    lemma_decimal_digits(major);
    lemma_decimal_length(major);
    assert(v[0] == 'v');
    assert(v[1] == decimal(major)[0]);
    if major < 10 {
        assert(decimal(major).len() == 1);
        assert(v[2] == '.');
        if v.len() >= 4 {
            assert(head[2] == '.');
        }
    } else if major < 100 {
        assert(decimal(major).len() == 2);
        assert(decimal(major) =~= seq![digit(major / 10), digit(major % 10)]);
        assert(v[2] == digit(major % 10));
        assert(v[3] == '.');
        assert(head =~= seq!['v', digit(major / 10), digit(major % 10), '.']);
        assert(digit(major / 10) as int == 48 + major / 10);
        assert(digit(major % 10) as int == 48 + major % 10);
        assert("v20."@ =~= seq!['v', '2', '0', '.']);
        assert("v22."@ =~= seq!['v', '2', '2', '.']);
        assert("v24."@ =~= seq!['v', '2', '4', '.']);
        assert(head[1] == digit(major / 10) && head[2] == digit(major % 10));
        if begins_with(v, "v20."@) || begins_with(v, "v22."@) || begins_with(v, "v24."@) {
            assert(head[1] == '2');
        }
    } else {
        assert(decimal(major).len() >= 3);
        assert(v[3] == decimal(major)[2]);
        assert('0' <= decimal(major)[2] <= '9');
        assert(head[3] == v[3]);
    }
}

proof fn lemma_decimal_length(n: nat)
    ensures
        n < 10 <==> decimal(n).len() == 1,
        n >= 100 ==> decimal(n).len() >= 3,
        10 <= n < 100 ==> decimal(n).len() == 2,
    decreases n,
{
    if n >= 10 {
        lemma_decimal_length(n / 10);
        lemma_decimal_digits(n / 10);
    }
}

/// 16 to a power.
pub open spec fn hex_size(width: nat) -> nat
    decreases width,
{
    if width == 0 {
        1
    } else {
        16 * hex_size((width - 1) as nat)
    }
}

proof fn lemma_hex_digit(d: nat, e: nat)
    requires
        d < 16,
        e < 16,
    ensures
        hex_digit(d) == hex_digit(e) ==> d == e,
        d < 10 ==> '0' <= hex_digit(d) <= '9',
        d >= 10 ==> 'a' <= hex_digit(d) <= 'f',
{
}

/// A number is written with as many digits as are asked for, all of them hexadecimal and in lower
/// case, and no two numbers that have as many digits are written alike.
pub proof fn hex_digits_tell_numbers_apart(n: nat, m: nat, width: nat)
    ensures
        hex(n, width).len() == width,
        forall|i: int|
            0 <= i < width ==> ('0' <= #[trigger] hex(n, width)[i] <= '9' || 'a' <= hex(n, width)[i]
                <= 'f'),
        n < hex_size(width) && m < hex_size(width) && hex(n, width) == hex(m, width) ==> n == m,
        width > 0 && n < 10 ==> hex(n, width)[width - 1] as int == '0' as int + n,
    decreases width,
{
    if width > 0 {
        hex_digits_tell_numbers_apart(n / 16, m / 16, (width - 1) as nat);
        lemma_hex_digit(n % 16, m % 16);
        let a = hex(n, width);
        let b = hex(m, width);
        assert(a.drop_last() =~= hex(n / 16, (width - 1) as nat));
        assert(b.drop_last() =~= hex(m / 16, (width - 1) as nat));
        assert(a.last() == hex_digit(n % 16));
        assert(b.last() == hex_digit(m % 16));
        assert forall|i: int| 0 <= i < width implies ('0' <= #[trigger] a[i] <= '9' || 'a' <= a[i]
            <= 'f') by {
            if i < width - 1 {
                assert(a[i] == hex(n / 16, (width - 1) as nat)[i]);
            }
        }
    }
}

/// What a child may use is capped at a day of processor time, 8 GiB of data and 4096 open files.
pub proof fn children_are_capped(res: Resource)
    ensures
        res == Resource::CpuSeconds ==> cap_of(res) == 86_400,
        res == Resource::DataBytes ==> cap_of(res) == 8_589_934_592,
        res == Resource::OpenFiles ==> cap_of(res) == 4096,
{
}

/// A request is sent once the process runs: one that is there is used, and one that is not is
/// started first.
pub proof fn requests_are_sent_to_a_process(running: bool, e: String)
    ensures
        invoke_next(InvokeStage::FindServer, InvokeEvent::Server { running }) == InvokeNextTree::Go(
            if running {
                InvokeStage::Send
            } else {
                InvokeStage::StartServer
            },
        ),
        invoke_next(InvokeStage::StartServer, InvokeEvent::Started) == InvokeNextTree::Go(
            InvokeStage::Send,
        ),
        invoke_next(InvokeStage::StartServer, InvokeEvent::Failed(e)) == InvokeNextTree::Finish(
            OutcomeTree::Error("Failed to create inner local node executor"@),
            false,
        ),
{
}

/// A response is read where its status is no error, that is below 400 or above 599. Of the errors,
/// 413 says that the arguments are too large, and what is said of any other is read.
pub proof fn statuses_decide_what_is_read(status: u16)
    ensures
        status < 400 || status > 599 ==> invoke_next(
            InvokeStage::Send,
            InvokeEvent::Status(status),
        ) == InvokeNextTree::Go(InvokeStage::ReadResponse),
        status == 413 ==> invoke_next(InvokeStage::Send, InvokeEvent::Status(status))
            == InvokeNextTree::Finish(OutcomeTree::ArgsTooLarge, false),
        400 <= status <= 599 && status != 413 ==> invoke_next(
            InvokeStage::Send,
            InvokeEvent::Status(status),
        ) == InvokeNextTree::Go(InvokeStage::ReadError),
{
}

/// What the process answers is the response, and what stands for an answer that it did not finish
/// is one too. What it says of an error, and what is said of a failure to read, reach the caller.
pub proof fn responses_reach_the_caller(j: Json, text: String)
    ensures
        invoke_next(InvokeStage::ReadResponse, InvokeEvent::Payload(j)) matches InvokeNextTree::Finish(
            outcome,
            _,
        ) && outcome == OutcomeTree::Response(j.tree()),
        invoke_next(InvokeStage::ReadResponse, InvokeEvent::Replacement(j))
            == InvokeNextTree::Finish(OutcomeTree::Response(j.tree()), false),
        invoke_next(InvokeStage::ReadError, InvokeEvent::ErrorText(text))
            == InvokeNextTree::Finish(
            OutcomeTree::Error("Node executor server returned error: "@ + text@),
            false,
        ),
        invoke_next(InvokeStage::ReadError, InvokeEvent::Failed(text)) == InvokeNextTree::Finish(
            OutcomeTree::Error(text@),
            false,
        ),
        invoke_next(InvokeStage::ReadResponse, InvokeEvent::Failed(text))
            == InvokeNextTree::Finish(OutcomeTree::Error(text@), false),
        invoke_next(InvokeStage::Send, InvokeEvent::SendTimedOut) == InvokeNextTree::Finish(
            OutcomeTree::TimedOut,
            false,
        ),
        invoke_next(InvokeStage::Send, InvokeEvent::Failed(text)) == InvokeNextTree::Finish(
            OutcomeTree::Error("Node server request failed"@),
            false,
        ),
        invoke_next(InvokeStage::Send, InvokeEvent::ConnectFailed(text)) == InvokeNextTree::Finish(
            OutcomeTree::Error("Node server request failed"@),
            true,
        ),
{
}

/// The process is dropped exactly where it cannot be reached, or where its answer is an object that
/// says, under `exitingProcess`, that it is true that it exits.
pub proof fn exiting_processes_are_dropped(j: Json)
    requires
        tree_wf(j.tree()),
    ensures
        invoke_next(InvokeStage::ReadResponse, InvokeEvent::Payload(j)) matches InvokeNextTree::Finish(
            _,
            dropped,
        ) && (dropped <==> (j.tree() matches JsonTree::Object(es) && exists|i: int|
            0 <= i < es.len() && #[trigger] es[i] == ("exitingProcess"@, JsonTree::Bool(true)))),
{
    if let JsonTree::Object(es) = j.tree() {
        lemma_member_index(es, "exitingProcess"@);
        if exists|i: int|
            0 <= i < es.len() && #[trigger] es[i] == ("exitingProcess"@, JsonTree::Bool(true)) {
            let i = choose|i: int|
                0 <= i < es.len() && #[trigger] es[i] == ("exitingProcess"@, JsonTree::Bool(true));
            assert(es[i].0 == "exitingProcess"@);
            assert(distinct_keys(es));
            assert(member_index(es, "exitingProcess"@) == i);
        } else if has_member(es, "exitingProcess"@) {
            let i = member_index(es, "exitingProcess"@);
            assert(es[i].0 == "exitingProcess"@);
            assert(es[i] != ("exitingProcess"@, JsonTree::Bool(true)));
        }
    }
}

/// A version of Node is accepted exactly where its major number is 20, 22 or 24.
pub proof fn node_versions_are_checked(
    version: &str,
    major: nat,
    rest: Seq<char>,
    checked: Result<(), UserError>,
)
    requires
        version@ == seq!['v'] + decimal(major) + seq!['.'] + rest,
        call_ensures(check_node_version, (version,), checked),
    ensures
        checked is Ok <==> major == 20 || major == 22 || major == 24,
        checked matches Err(e) ==> e.code@ == "DeploymentNotConfiguredForNodeActions"@,
{
    even_majors_are_supported(major, rest);
}

/// The preferred Node is used where it is there, and otherwise the one on the path.
pub proof fn preferred_node_is_used(version: &str, preferred: String, exists_there: bool, path: String)
    requires
        call_ensures(preferred_node_path, (version,), preferred),
        call_ensures(choose_node_path, (preferred, exists_there), path),
    ensures
        exists_there ==> path@ == "versions/node/v"@ + version@ + "/bin/node"@,
        !exists_there ==> path@ == "node"@,
{
}

/// The limit of a child is never above its cap and never above what it inherits, and is one of the
/// two; a limit that cannot be lowered is left alone.
pub proof fn limits_are_only_lowered(res: Resource, inherited_max: u64, set: Option<u64>)
    requires
        call_ensures(harden_child_process, (res, inherited_max), set),
    ensures
        set is None <==> inherited_max == 0,
        set matches Some(n) ==> n <= cap_of(res) && n <= inherited_max && (n == cap_of(res) || n
            == inherited_max),
{
}

/// A process that is healthy is ready at once. One that is not is checked again, up to 50 times in
/// all, each check counted; and then it is given up.
pub proof fn health_is_checked_fifty_times(attempts: u32, healthy: bool, next: HealthNext)
    requires
        attempts < 50,
        call_ensures(health_checked, (attempts, healthy), next),
    ensures
        healthy <==> next == HealthNext::Ready,
        next matches HealthNext::Wait { attempts: n } ==> n == attempts + 1 && n < 50,
        next == HealthNext::GiveUp <==> !healthy && attempts == 49,
{
}

/// A response is over where it ends or takes too long, and only then; a piece of it is passed on,
/// and so is what is said of a failure.
pub proof fn responses_are_streamed(event: StreamEvent, part: Result<(StreamPart, bool), String>)
    requires
        call_ensures(response_part, (event,), part),
    ensures
        part is Err <==> event is Failed,
        part matches Ok((p, last)) ==> (last <==> p is Complete) && (last <==> event is End
            || event is TimedOut),
        part matches Ok((StreamPart::Complete { in_time }, _)) ==> (in_time <==> event is End),
        part matches Ok((StreamPart::Chunk(b), _)) ==> event == StreamEvent::Chunk(b),
        part matches Err(e) ==> event == StreamEvent::Failed(e),
{
}

/// No two pipes share a name.
pub proof fn pipes_have_names_of_their_own(n: u64, m: u64, a: String, b: String)
    requires
        call_ensures(pipe_name, (n,), a),
        call_ensures(pipe_name, (m,), b),
        a@ == b@,
    ensures
        n == m,
{
    let head = "\\\\.\\pipe\\cvx-node-executor-"@;
    assert((head + hex(n as nat, 16)).skip(head.len() as int) =~= hex(n as nat, 16));
    assert((head + hex(m as nat, 16)).skip(head.len() as int) =~= hex(m as nat, 16));
    hex_digits_tell_numbers_apart(n as nat, m as nat, 16);
    reveal_with_fuel(hex_size, 17);
    assert(hex_size(16) == 0x1_0000_0000_0000_0000);
}

/// The process is given its source, where it is to listen, and where its temporary files go.
pub proof fn processes_are_told_where_to_listen(
    source_path: &str,
    socket_path: &str,
    temp_dir: &str,
    args: Vec<String>,
)
    requires
        call_ensures(node_arguments, (source_path, socket_path, temp_dir), args),
    ensures
        texts(args@) == seq![
            source_path@,
            "--ipc-path"@,
            socket_path@,
            "--tempdir"@,
            temp_dir@,
        ],
{
    assert(texts(args@) =~= seq![
        source_path@,
        "--ipc-path"@,
        socket_path@,
        "--tempdir"@,
        temp_dir@,
    ]);
}

} // verus!
