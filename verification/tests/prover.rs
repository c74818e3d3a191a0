use nexus_cli::prover::{
    check_execution, classify_orchestrator_error, client_id, get_public_input, guest_load_error,
    key_load_error, label_proving_error, node_prefix, proof_hash, prover_creation_error,
    u64_le_bytes, ExecutionReport, OrchestratorCall, ProverError, SerializationError,
};
use nexus_cli::task::Task;

fn task(inputs: Vec<u8>) -> Task {
    Task::new("task-1".to_string(), "fib_input".to_string(), inputs)
}

#[test]
fn public_input_is_first_byte() {
    assert_eq!(get_public_input(&task(vec![9, 4, 2])).unwrap(), 9);
    assert_eq!(get_public_input(&task(vec![255])).unwrap(), 255);
}

#[test]
fn empty_public_inputs_are_malformed() {
    match get_public_input(&task(vec![])) {
        Err(ProverError::MalformedTask(m)) => assert_eq!(m, "Task public inputs are empty"),
        other => panic!("unexpected {:?}", other),
    }
}

#[test]
fn error_messages() {
    assert_eq!(ProverError::Orchestrator("x".into()).message(), "Orchestrator error: x");
    assert_eq!(ProverError::Stwo("x".into()).message(), "Stwo prover error: x");
    assert_eq!(ProverError::NodeStopped(12).message(), "Node stopped after 12 consecutive failures");
    assert_eq!(ProverError::RateLimited("x".into()).message(), "Rate limited (429): x");
    assert_eq!(ProverError::MalformedTask("x".into()).message(), "Malformed task: x");
    assert_eq!(ProverError::GuestProgram("x".into()).message(), "Guest Program error: x");
    assert_eq!(
        ProverError::Serialization(SerializationError::new(postcard::Error::SerializeBufferFull))
            .message(),
        "Serialization error: The serialize buffer is full"
    );
}

#[test]
fn execution_results() {
    assert!(check_execution(ExecutionReport::Exited(0), 0).is_ok());
    assert!(check_execution(ExecutionReport::Exited(7), 7).is_ok());
    match check_execution(ExecutionReport::Exited(3), 0) {
        Err(ProverError::GuestProgram(m)) => assert_eq!(m, "Prover exited with non-zero exit code: 3"),
        other => panic!("unexpected {:?}", other),
    }
    match check_execution(ExecutionReport::ProverFailed("boom".into()), 0) {
        Err(ProverError::Stwo(m)) => assert_eq!(m, "Failed to run prover: boom"),
        other => panic!("unexpected {:?}", other),
    }
    match check_execution(ExecutionReport::ExitCodeUnreadable("eof".into()), 0) {
        Err(ProverError::GuestProgram(m)) => assert_eq!(m, "Failed to deserialize exit code: eof"),
        other => panic!("unexpected {:?}", other),
    }
}

#[test]
fn orchestrator_errors_are_classified() {
    match classify_orchestrator_error(OrchestratorCall::FetchTask, "[429] RATE_LIMITED: wait") {
        ProverError::RateLimited(m) => assert_eq!(m, "Task fetch rate limited: [429] RATE_LIMITED: wait"),
        other => panic!("unexpected {:?}", other),
    }
    match classify_orchestrator_error(OrchestratorCall::FetchTask, "[500] oops") {
        ProverError::Orchestrator(m) => assert_eq!(m, "Failed to get task: [500] oops"),
        other => panic!("unexpected {:?}", other),
    }
    match classify_orchestrator_error(OrchestratorCall::SubmitProof, "RATE_LIMITED: x") {
        ProverError::RateLimited(m) => assert_eq!(m, "Proof submission rate limited: RATE_LIMITED: x"),
        other => panic!("unexpected {:?}", other),
    }
    match classify_orchestrator_error(OrchestratorCall::SubmitProof, "[400] Invalid request") {
        ProverError::Orchestrator(m) => assert_eq!(m, "Failed to submit proof: [400] Invalid request"),
        other => panic!("unexpected {:?}", other),
    }
    match classify_orchestrator_error(OrchestratorCall::Bare, "RATE_LIMITED: x") {
        ProverError::RateLimited(m) => assert_eq!(m, "RATE_LIMITED: x"),
        other => panic!("unexpected {:?}", other),
    }
    match classify_orchestrator_error(OrchestratorCall::Bare, "rate limited") {
        ProverError::Orchestrator(m) => assert_eq!(m, "rate limited"),
        other => panic!("unexpected {:?}", other),
    }
}

#[test]
fn proving_errors_are_labelled() {
    match label_proving_error(ProverError::MalformedTask("m".into())) {
        ProverError::MalformedTask(m) => assert_eq!(m, "Task validation failed: m"),
        other => panic!("unexpected {:?}", other),
    }
    match label_proving_error(ProverError::GuestProgram("g".into())) {
        ProverError::GuestProgram(m) => assert_eq!(m, "Program execution failed: g"),
        other => panic!("unexpected {:?}", other),
    }
    match label_proving_error(ProverError::Stwo("s".into())) {
        ProverError::Stwo(m) => assert_eq!(m, "Prover error: s"),
        other => panic!("unexpected {:?}", other),
    }
    match label_proving_error(ProverError::Orchestrator("o".into())) {
        ProverError::Orchestrator(m) => assert_eq!(m, "o"),
        other => panic!("unexpected {:?}", other),
    }
}

#[test]
fn other_error_constructors() {
    match guest_load_error("bad elf") {
        ProverError::Stwo(m) => assert_eq!(m, "Failed to load guest program: bad elf"),
        other => panic!("unexpected {:?}", other),
    }
    match prover_creation_error(&ProverError::Stwo("bad".into())) {
        ProverError::Stwo(m) => assert_eq!(m, "Failed to create prover: Stwo prover error: bad"),
        other => panic!("unexpected {:?}", other),
    }
    match key_load_error("denied") {
        ProverError::Orchestrator(m) => assert_eq!(m, "Failed to load signing key: denied"),
        other => panic!("unexpected {:?}", other),
    }
}

#[test]
fn proof_hash_is_keccak256_hex() {
    assert_eq!(
        proof_hash(&[]),
        "c5d2460186f7233c927e7db2dcc703c0e500b653ca82273b7bfad8045d85a470"
    );
    assert_eq!(
        proof_hash(b"abc"),
        "4e03657aea45a94fc7d47ba826c8d667c0d1e6e33a64a036ec44f58fa12d6c45"
    );
}

#[test]
fn client_ids_are_md5_hex() {
    assert_eq!(client_id(None), "294de3557d9d00b3d2d8a1e6aab028cf");
    assert_eq!(client_id(Some(12345)), "89af2df214317989ed233cbeffe82f0c");
    assert_eq!(client_id(Some(0)), "7dea362b3fac8e00956a4952a3d4f474");
}

#[test]
fn le_bytes_match_std() {
    for n in [0u64, 1, 255, 256, 12345, u64::MAX, 0x0102030405060708] {
        assert_eq!(u64_le_bytes(n), n.to_le_bytes().to_vec());
    }
}

#[test]
fn node_prefixes() {
    assert_eq!(node_prefix(Some(1234567)), "[Node-1234567]");
    assert_eq!(node_prefix(None), "[Anonymous]");
}

#[test]
fn serialization_error_keeps_postcard_error() {
    let e = SerializationError::new(postcard::Error::DeserializeBadBool);
    assert_eq!(e.description_text(), "Found a bool that wasn't 0 or 1");
    assert_eq!(e.into_error(), postcard::Error::DeserializeBadBool);
}
