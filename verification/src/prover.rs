//! Prover errors and the decisions around proving: task inputs, execution
//! results, orchestrator failures, proof hashes and client identifiers.

use vstd::prelude::*;
use crate::digest::{keccak256, keccak256_digest, md5, md5_digest};
use crate::task::Task;
use crate::text::{contains_text, decimal, digit_table, hex_encode, hex_lower, join, lemma_hex_lower_shape, push_decimal, text_contains};

verus! {

#[verifier::external_type_specification]
#[verifier::external_body]
pub struct ExPostcardError(postcard::Error);

/// Errors of the proving pipeline.
#[derive(Debug)]
pub enum ProverError {
    Orchestrator(String),
    Stwo(String),
    Serialization(SerializationError),
    NodeStopped(u32),
    RateLimited(String),
    MalformedTask(String),
    GuestProgram(String),
}

/// Calls postcard's `Display` for `postcard::Error` (through `to_string`).
/// Nothing is stated of the text: it depends on the error's variant, which is
/// opaque here.
#[verifier::external_body]
fn postcard_error_text(e: &postcard::Error) -> String {
    e.to_string()
}

/// A failure to serialize a proof: postcard's error together with postcard's
/// description of it.
#[derive(Debug)]
pub struct SerializationError {
    error: postcard::Error,
    description: String,
}

impl SerializationError {
    /// The error postcard reported.
    pub closed spec fn error(&self) -> postcard::Error {
        self.error
    }

    /// Postcard's description of the error.
    pub closed spec fn description(&self) -> Seq<char> {
        self.description@
    }

    /// The failure postcard reported as `error`, with postcard's description.
    pub fn new(error: postcard::Error) -> (s: SerializationError)
        ensures
            s.error() == error,
    {
        let description = postcard_error_text(&error);
        SerializationError { error, description }
    }

    /// Postcard's description of the error.
    pub fn description_text(&self) -> (d: &str)
        ensures
            d@ == self.description(),
    {
        self.description.as_str()
    }

    /// The error postcard reported.
    pub fn into_error(self) -> (e: postcard::Error)
        ensures
            e == self.error(),
    {
        self.error
    }
}

/// The text of an error.
pub open spec fn error_text(e: ProverError) -> Seq<char> {
    match e {
        ProverError::Orchestrator(m) => "Orchestrator error: "@ + m@,
        ProverError::Stwo(m) => "Stwo prover error: "@ + m@,
        ProverError::Serialization(s) => "Serialization error: "@ + s.description(),
        ProverError::NodeStopped(n) => "Node stopped after "@ + decimal(n as nat)
            + " consecutive failures"@,
        ProverError::RateLimited(m) => "Rate limited (429): "@ + m@,
        ProverError::MalformedTask(m) => "Malformed task: "@ + m@,
        ProverError::GuestProgram(m) => "Guest Program error: "@ + m@,
    }
}

impl ProverError {
    /// The human-readable description of the error.
    pub fn message(&self) -> (text: String)
        ensures
            text@ == error_text(*self),
    {
        match self {
            ProverError::Orchestrator(m) => join("Orchestrator error: ", m.as_str()),
            ProverError::Stwo(m) => join("Stwo prover error: ", m.as_str()),
            ProverError::Serialization(e) => join("Serialization error: ", e.description_text()),
            ProverError::NodeStopped(n) => {
                let mut s = String::new();
                s.append("Node stopped after ");
                push_decimal(&mut s, *n as u64);
                s.append(" consecutive failures");
                s
            },
            ProverError::RateLimited(m) => join("Rate limited (429): ", m.as_str()),
            ProverError::MalformedTask(m) => join("Malformed task: ", m.as_str()),
            ProverError::GuestProgram(m) => join("Guest Program error: ", m.as_str()),
        }
    }
}

/// The single `u32` public input of a task: its first byte.
pub fn get_public_input(task: &Task) -> (res: Result<u32, ProverError>)
    ensures
        task.public_inputs@.len() == 0 <==> res is Err,
        res matches Ok(v) ==> v == task.public_inputs@[0],
        res matches Err(e) ==> (e matches ProverError::MalformedTask(m)
            && m@ == "Task public inputs are empty"@),
{
    if task.public_inputs.len() == 0 {
        return Err(ProverError::MalformedTask(String::from_str("Task public inputs are empty")));
    }
    Ok(task.public_inputs[0] as u32)
}

/// What running the guest program under the prover gave.
pub enum ExecutionReport {
    /// The prover failed, with its description.
    ProverFailed(String),
    /// The exit code could not be read back, with the reason.
    ExitCodeUnreadable(String),
    /// The guest exited with this code.
    Exited(u32),
}

/// Whether an execution counts as a successful proof, and the error if not;
/// `success_code` is the exit code of a guest program that ran to completion.
pub fn check_execution(report: ExecutionReport, success_code: u32) -> (res: Result<(), ProverError>)
    ensures
        report matches ExecutionReport::ProverFailed(m) ==> (res matches Err(ProverError::Stwo(t))
            && t@ == "Failed to run prover: "@ + m@),
        report matches ExecutionReport::ExitCodeUnreadable(m) ==> (res matches Err(
            ProverError::GuestProgram(t),
        ) && t@ == "Failed to deserialize exit code: "@ + m@),
        report matches ExecutionReport::Exited(c) ==> (c == success_code <==> res is Ok),
        report matches ExecutionReport::Exited(c) ==> (c != success_code ==> (res matches Err(
            ProverError::GuestProgram(t),
        ) && t@ == "Prover exited with non-zero exit code: "@ + decimal(c as nat))),
{
    match report {
        ExecutionReport::ProverFailed(m) => Err(
            ProverError::Stwo(join("Failed to run prover: ", m.as_str())),
        ),
        ExecutionReport::ExitCodeUnreadable(m) => Err(
            ProverError::GuestProgram(join("Failed to deserialize exit code: ", m.as_str())),
        ),
        ExecutionReport::Exited(c) => {
            if c == success_code {
                Ok(())
            } else {
                let mut t = String::new();
                t.append("Prover exited with non-zero exit code: ");
                push_decimal(&mut t, c as u64);
                Err(ProverError::GuestProgram(t))
            }
        },
    }
}

/// The error for a guest program that the prover could not load.
pub fn guest_load_error(detail: &str) -> (e: ProverError)
    ensures
        e matches ProverError::Stwo(t) && t@ == "Failed to load guest program: "@ + detail@,
{
    ProverError::Stwo(join("Failed to load guest program: ", detail))
}

/// The error for a shared prover instance that could not be created.
pub fn prover_creation_error(cause: &ProverError) -> (e: ProverError)
    ensures
        e matches ProverError::Stwo(t) && t@ == "Failed to create prover: "@ + error_text(*cause),
{
    let m = cause.message();
    ProverError::Stwo(join("Failed to create prover: ", m.as_str()))
}

/// The error for a signing key that could not be loaded or created.
pub fn key_load_error(detail: &str) -> (e: ProverError)
    ensures
        e matches ProverError::Orchestrator(t) && t@ == "Failed to load signing key: "@ + detail@,
{
    ProverError::Orchestrator(join("Failed to load signing key: ", detail))
}

/// The request to the orchestrator that failed.
#[derive(Clone, Copy, Debug, PartialEq, Eq)]
pub enum OrchestratorCall {
    /// Fetching a task.
    FetchTask,
    /// Submitting a proof.
    SubmitProof,
    /// Either, reported with the orchestrator's words alone.
    Bare,
}

/// The marker by which the orchestrator client reports a rate limit.
pub open spec fn rate_limit_marker() -> Seq<char> {
    "RATE_LIMITED:"@
}

/// The rate-limit marker is the thirteen characters `RATE_LIMITED:`, colon
/// included.
pub proof fn lemma_rate_limit_marker()
    ensures
        rate_limit_marker() == seq!['R', 'A', 'T', 'E', '_', 'L', 'I', 'M', 'I', 'T', 'E', 'D', ':'],
{
    reveal_strlit("RATE_LIMITED:");
    assert(rate_limit_marker() =~= seq!['R', 'A', 'T', 'E', '_', 'L', 'I', 'M', 'I', 'T', 'E', 'D', ':']);
}

/// Text put before a rate-limited orchestrator error.
pub open spec fn rate_limited_prefix(call: OrchestratorCall) -> Seq<char> {
    match call {
        OrchestratorCall::FetchTask => "Task fetch rate limited: "@,
        OrchestratorCall::SubmitProof => "Proof submission rate limited: "@,
        OrchestratorCall::Bare => Seq::empty(),
    }
}

/// Text put before any other orchestrator error.
pub open spec fn failed_call_prefix(call: OrchestratorCall) -> Seq<char> {
    match call {
        OrchestratorCall::FetchTask => "Failed to get task: "@,
        OrchestratorCall::SubmitProof => "Failed to submit proof: "@,
        OrchestratorCall::Bare => Seq::empty(),
    }
}

/// Turns an orchestrator client's error text into a prover error: a rate limit
/// exactly when the text holds `RATE_LIMITED:`.
pub fn classify_orchestrator_error(call: OrchestratorCall, error_text: &str) -> (e: ProverError)
    ensures
        contains_text(error_text@, rate_limit_marker()) ==> (e matches ProverError::RateLimited(t)
            && t@ == rate_limited_prefix(call) + error_text@),
        !contains_text(error_text@, rate_limit_marker()) ==> (e matches ProverError::Orchestrator(
            t,
        ) && t@ == failed_call_prefix(call) + error_text@),
{
    let limited = text_contains(error_text, "RATE_LIMITED:");
    let (rate_prefix, fail_prefix) = match call {
        OrchestratorCall::FetchTask => ("Task fetch rate limited: ", "Failed to get task: "),
        OrchestratorCall::SubmitProof => (
            "Proof submission rate limited: ",
            "Failed to submit proof: ",
        ),
        OrchestratorCall::Bare => ("", ""),
    };
    proof {
        reveal_strlit("");
    }
    if limited {
        ProverError::RateLimited(join(rate_prefix, error_text))
    } else {
        ProverError::Orchestrator(join(fail_prefix, error_text))
    }
}

/// Adds the stage of proving to an error of `prove_with_task`: the task's
/// validation, the guest program, or the prover; other errors pass unchanged.
pub fn label_proving_error(e: ProverError) -> (labelled: ProverError)
    ensures
        e matches ProverError::MalformedTask(m) ==> (labelled matches ProverError::MalformedTask(t)
            && t@ == "Task validation failed: "@ + m@),
        e matches ProverError::GuestProgram(m) ==> (labelled matches ProverError::GuestProgram(t)
            && t@ == "Program execution failed: "@ + m@),
        e matches ProverError::Stwo(m) ==> (labelled matches ProverError::Stwo(t) && t@
            == "Prover error: "@ + m@),
        !(e is MalformedTask || e is GuestProgram || e is Stwo) ==> labelled == e,
{
    match e {
        ProverError::MalformedTask(m) => ProverError::MalformedTask(
            join("Task validation failed: ", m.as_str()),
        ),
        ProverError::GuestProgram(m) => ProverError::GuestProgram(
            join("Program execution failed: ", m.as_str()),
        ),
        ProverError::Stwo(m) => ProverError::Stwo(join("Prover error: ", m.as_str())),
        other => other,
    }
}

/// The hash under which a proof is submitted: its Keccak-256 digest in
/// lower-case hexadecimal.
pub fn proof_hash(proof: &[u8]) -> (h: String)
    ensures
        h@ == hex_lower(keccak256_digest(proof@)),
        h@.len() == 64,
        forall|i: int| 0 <= i < h@.len() ==> digit_table().contains(#[trigger] h@[i]),
{
    let digest = keccak256(proof);
    proof {
        lemma_hex_lower_shape(digest@);
    }
    hex_encode(digest.as_slice())
}

/// Little-endian bytes of `n`, `k` of them.
pub open spec fn le_bytes(n: nat, k: nat) -> Seq<u8>
    decreases k,
{
    if k == 0 {
        Seq::empty()
    } else {
        seq![(n % 256) as u8] + le_bytes(n / 256, (k - 1) as nat)
    }
}

/// The number that little-endian bytes denote.
pub open spec fn le_value(bytes: Seq<u8>) -> nat
    decreases bytes.len(),
{
    if bytes.len() == 0 {
        0
    } else {
        bytes[0] as nat + 256 * le_value(bytes.drop_first())
    }
}

/// `256` to the power `k`.
pub open spec fn pow256(k: nat) -> nat
    decreases k,
{
    if k == 0 {
        1
    } else {
        256 * pow256((k - 1) as nat)
    }
}

/// The `k` little-endian bytes of a number below `256^k` denote that number.
pub proof fn lemma_le_bytes_value(n: nat, k: nat)
    requires
        n < pow256(k),
    ensures
        le_bytes(n, k).len() == k,
        le_value(le_bytes(n, k)) == n,
    decreases k,
{
    if k > 0 {
        let p = pow256((k - 1) as nat);
        assert(n / 256 < p) by (nonlinear_arith)
            requires
                n < 256 * p,
        ;
        lemma_le_bytes_value(n / 256, (k - 1) as nat);
        assert(le_bytes(n, k).drop_first() =~= le_bytes(n / 256, (k - 1) as nat));
        assert(n == n % 256 + 256 * (n / 256));
    }
}

/// The eight little-endian bytes of a `u64` denote it.
pub proof fn lemma_u64_le_bytes(n: u64)
    ensures
        le_bytes(n as nat, 8).len() == 8,
        le_value(le_bytes(n as nat, 8)) == n,
{
    assert(pow256(8) == 0x1_0000_0000_0000_0000) by {
        reveal_with_fuel(pow256, 9);
    }
    lemma_le_bytes_value(n as nat, 8);
}

/// The eight little-endian bytes of `n`.
pub fn u64_le_bytes(n: u64) -> (b: Vec<u8>)
    ensures
        b@ == le_bytes(n as nat, 8),
{
    let mut b: Vec<u8> = Vec::new();
    let mut rest = n;
    let mut i: usize = 0;
    while i < 8
        invariant
            i <= 8,
            b@ + le_bytes(rest as nat, (8 - i) as nat) == le_bytes(n as nat, 8),
        decreases 8 - i,
    {
        let ghost before = b@;
        b.push((rest % 256) as u8);
        assert(le_bytes(rest as nat, (8 - i) as nat) == seq![(rest % 256) as u8] + le_bytes(
            (rest / 256) as nat,
            (8 - (i + 1)) as nat,
        ));
        assert(b@ + le_bytes((rest / 256) as nat, (8 - (i + 1)) as nat) =~= before + le_bytes(
            rest as nat,
            (8 - i) as nat,
        ));
        rest = rest / 256;
        i = i + 1;
    }
    assert(b@ + le_bytes(rest as nat, 0) =~= b@);
    b
}

/// The bytes of the text `anonymous`.
pub open spec fn anonymous_seed() -> Seq<u8> {
    seq![0x61u8, 0x6eu8, 0x6fu8, 0x6eu8, 0x79u8, 0x6du8, 0x6fu8, 0x75u8, 0x73u8]
}

/// What a client's identifier is the MD5 digest of: the node id's
/// little-endian bytes, or the text `anonymous`.
pub open spec fn client_seed(node_id: Option<u64>) -> Seq<u8> {
    match node_id {
        Some(id) => le_bytes(id as nat, 8),
        None => anonymous_seed(),
    }
}

/// The analytics client identifier: the MD5 digest of the seed in lower-case
/// hexadecimal.
pub fn client_id(node_id: Option<u64>) -> (id: String)
    ensures
        id@ == hex_lower(md5_digest(client_seed(node_id))),
{
    let seed = match node_id {
        Some(n) => u64_le_bytes(n),
        None => vec![0x61u8, 0x6eu8, 0x6fu8, 0x6eu8, 0x79u8, 0x6du8, 0x6fu8, 0x75u8, 0x73u8],
    };
    assert(seed@ == client_seed(node_id));
    let digest = md5(seed.as_slice());
    hex_encode(digest.as_slice())
}

/// The prefix that tags a node's console lines.
pub open spec fn node_prefix_text(node_id: Option<u64>) -> Seq<char> {
    match node_id {
        Some(id) => "[Node-"@ + decimal(id as nat) + "]"@,
        None => "[Anonymous]"@,
    }
}

/// `[Node-<id>]` for a node, `[Anonymous]` without one.
pub fn node_prefix(node_id: Option<u64>) -> (p: String)
    ensures
        p@ == node_prefix_text(node_id),
{
    match node_id {
        Some(id) => {
            let mut p = String::from_str("[Node-");
            push_decimal(&mut p, id);
            p.append("]");
            p
        },
        None => String::from_str("[Anonymous]"),
    }
}

} // verus!
