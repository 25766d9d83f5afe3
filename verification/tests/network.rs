//! Network, identifier, artifact and ledger-point tests.

use estamora::ledger::{
    ALLOWANCES, AllowanceGrant, BALANCES, DEFAULT_LEDGER_SEQUENCE, DEFAULT_LEDGER_TIMESTAMP, LedgerPoint, PlannedRead,
    allowance_expiry, resource_reads,
};
use estamora::network::{
    LedgerAnswer, MAX_ARTIFACT_BYTES, Network, RPC_URL_VARIABLE, Resolution, ResolutionAction, RpcReply, check_artifact,
    check_reply, decode_base64, parse_contract_id, resolve_step, truncate, unreachable_node, verify_code_hash,
};
use estamora::node_entry::{EntryExtension, NodeEntry, assemble_entry};
use estamora::taxonomy::ErrorClass;
use sha2::{Digest, Sha256};
use stellar_xdr::curr::{
    BytesM, ContractCodeEntry, ContractCodeEntryExt, LedgerEntry, LedgerEntryData, LedgerEntryExt, Limits, ReadXdr,
    WriteXdr,
};

fn names(items: &[&str]) -> Vec<String> {
    items.iter().map(|s| (*s).to_owned()).collect()
}

fn grant(from: &str, spender: &str, live_until_ledger: Option<u32>) -> AllowanceGrant {
    AllowanceGrant { from: from.to_owned(), spender: spender.to_owned(), live_until_ledger }
}

#[test]
fn a_known_network_resolves_to_an_endpoint() {
    let testnet = Network::lookup("testnet", None).unwrap();
    assert_eq!(testnet.name, "testnet");
    assert_eq!(testnet.rpc_url, "https://soroban-testnet.stellar.org");
    assert!(Network::lookup("mainnet", None).is_ok());
}

#[test]
fn an_unknown_network_is_a_usage_error_that_names_the_known_ones() {
    let problem = Network::lookup("testnett", None).unwrap_err();
    assert_eq!(problem.class(), ErrorClass::UsageError);
    assert!(problem.message().contains("testnet"), "{}", problem.message());
    assert!(
        problem.message().contains(RPC_URL_VARIABLE),
        "an unknown network must say how to name an endpoint instead: {}",
        problem.message()
    );
    assert_eq!(problem.context_value("network"), Some("testnett"));
}

#[test]
fn an_override_names_the_endpoint_and_is_used_verbatim() {
    let network = Network::lookup("staging", Some("https://rpc.internal.example")).unwrap();
    assert_eq!(network.name, "staging");
    assert_eq!(network.rpc_url, "https://rpc.internal.example");
}

#[test]
fn an_empty_override_is_treated_as_absent() {
    let network = Network::lookup("testnet", Some("")).unwrap();
    assert_eq!(network.rpc_url, "https://soroban-testnet.stellar.org");
    assert!(Network::lookup("staging", Some("")).is_err());
}

#[test]
fn an_account_identifier_is_refused_as_a_contract() {
    let account = format!(
        "{}",
        stellar_strkey::Strkey::PublicKeyEd25519(stellar_strkey::ed25519::PublicKey([7; 32]))
    );
    let problem = parse_contract_id(account.as_str()).unwrap_err();
    assert_eq!(problem.class(), ErrorClass::UsageError);
    assert!(
        problem.message().contains("not a contract"),
        "an account identifier must be refused as a contract rather than as malformed: {}",
        problem.message()
    );
    assert_eq!(problem.context_value("reason").map(|reason| reason.contains("account")), Some(true));
}

#[test]
fn a_malformed_identifier_is_refused_before_any_network_call() {
    let problem = parse_contract_id("Cnot-a-contract").unwrap_err();
    assert_eq!(problem.class(), ErrorClass::UsageError);
    assert_eq!(problem.context_value("contract"), Some("Cnot-a-contract"));
}

#[test]
fn a_contract_identifier_gives_its_thirty_two_bytes() {
    let contract = format!("{}", stellar_strkey::Strkey::Contract(stellar_strkey::Contract([3; 32])));
    assert_eq!(parse_contract_id(contract.as_str()).unwrap(), vec![3u8; 32]);
}

#[test]
fn code_that_does_not_hash_to_what_the_contract_declares_is_refused() {
    let code = b"\0asm\x01\0\0\0";
    let declared = vec![9u8; 32];
    let problem = verify_code_hash(&declared, code).unwrap_err();
    assert_eq!(problem.class(), ErrorClass::NetworkError);
    assert_eq!(problem.context_value("reason"), Some("artifact-hash-mismatch"));
}

#[test]
fn code_that_hashes_to_what_the_contract_declares_is_accepted() {
    let code = b"\0asm\x01\0\0\0";
    let declared = Sha256::digest(code).to_vec();
    assert!(verify_code_hash(&declared, code).is_ok());
}

#[test]
fn a_fetched_artifact_is_checked_for_size_and_then_for_its_hash() {
    let code = b"\0asm\x01\0\0\0".to_vec();
    let declared = Sha256::digest(&code).to_vec();
    assert!(check_artifact("CABC", "testnet", &declared, &code).is_ok());

    let problem = check_artifact("CABC", "testnet", &vec![0u8; 32], &code).unwrap_err();
    assert_eq!(problem.class(), ErrorClass::NetworkError);
    assert_eq!(problem.context_value("network"), Some("testnet"));
    assert_eq!(problem.context_value("contract"), Some("CABC"));

    let oversized = vec![0u8; MAX_ARTIFACT_BYTES + 1];
    let problem = check_artifact("CABC", "testnet", &declared, &oversized).unwrap_err();
    assert_eq!(problem.class(), ErrorClass::ContractResolutionError);
}

#[test]
fn a_ledger_entry_is_standard_base64() {
    assert_eq!(decode_base64("bm90IHhkcg==").unwrap(), b"not xdr".to_vec());
    let problem = decode_base64("not base64!").unwrap_err();
    assert_eq!(problem.class(), ErrorClass::NetworkError);
    assert_eq!(problem.context_value("reason"), Some("malformed-response"));
}

#[test]
fn a_long_body_is_shortened_on_a_character_boundary() {
    assert_eq!(truncate("short", 10), "short");
    let long = "é".repeat(10);
    let shortened = truncate(&long, 5);
    assert!(shortened.ends_with('…'));
    assert!(shortened.len() <= 5 + "…".len() + 1);
    assert_eq!(shortened, "éé…");
    assert_eq!(truncate("exactly", 7), "exactly");
}

#[test]
fn tests_the_ledger_point_is_the_one_the_fixture_declared() {
    let point = LedgerPoint::new(4_242, 1_768_478_400);
    assert_eq!(point.sequence, 4_242);
    assert_eq!(point.timestamp, 1_768_478_400);
    let default = LedgerPoint::default();
    assert_eq!(default.sequence, DEFAULT_LEDGER_SEQUENCE);
    assert_eq!(default.timestamp, DEFAULT_LEDGER_TIMESTAMP);
}

#[test]
fn world_the_ledger_point_is_the_one_the_fixture_declared() {
    assert_eq!(LedgerPoint::new(1_000, DEFAULT_LEDGER_TIMESTAMP).sequence, 1_000);
    assert_eq!(LedgerPoint::default(), LedgerPoint::new(1_000, 1_768_478_400));
}

#[test]
fn allowance_expiry_is_answered_from_the_fixture_that_granted_it() {
    let grants = vec![grant("alice", "bob", Some(5_000))];
    assert_eq!(allowance_expiry(&grants, "alice", "bob"), Some(5_000));
    assert_eq!(allowance_expiry(&grants, "bob", "alice"), None);
    let unbounded = vec![grant("alice", "bob", None), grant("alice", "bob", Some(9))];
    assert_eq!(allowance_expiry(&unbounded, "alice", "bob"), None, "the first grant answers");
}

#[test]
fn a_resource_set_ranges_over_exactly_the_actors_the_fixture_declared() {
    let reads = resource_reads(BALANCES, &names(&["alice", "bob"]), &vec![]).unwrap();
    assert_eq!(reads.len(), 2, "one member per declared actor, and no others");
    assert_eq!(reads[0], PlannedRead { method: "balance".to_owned(), args: names(&["alice"]) });
    assert_eq!(reads[1], PlannedRead { method: "balance".to_owned(), args: names(&["bob"]) });

    let reads = resource_reads(ALLOWANCES, &names(&["alice", "bob"]), &vec![grant("alice", "bob", Some(5_000))]).unwrap();
    assert_eq!(reads, vec![PlannedRead { method: "allowance".to_owned(), args: names(&["alice", "bob"]) }]);
}

#[test]
fn a_resource_set_that_cannot_be_enumerated_is_refused_by_name() {
    let problem = resource_reads("storage", &names(&["alice"]), &vec![]).unwrap_err();
    assert_eq!(problem.class(), ErrorClass::ExecutionError);
    assert_eq!(problem.context_value("resource"), Some("storage"));
}

#[test]
fn a_node_s_reply_is_classified_as_a_network_failure_or_accepted() {
    let url = "https://rpc.example";
    assert!(check_reply("getNetwork", url, &RpcReply::Answered).is_ok());

    let status = check_reply(
        "getNetwork",
        url,
        &RpcReply::Status { status: "503 Service Unavailable".to_owned(), body: "x".repeat(500) },
    )
    .unwrap_err();
    assert_eq!(status.class(), ErrorClass::NetworkError);
    assert!(status.message().starts_with("getNetwork could not be completed: the node answered 503 Service Unavailable: "));
    assert_eq!(status.context_value("reason"), Some("network-unreachable"));
    assert_eq!(status.context_value("rpc_url"), Some(url));

    let garbled = check_reply("getLedgerEntries", url, &RpcReply::NotJson { problem: "expected value".to_owned() }).unwrap_err();
    assert_eq!(garbled.message(), "the node's answer to getLedgerEntries was not JSON: expected value");
    assert_eq!(garbled.context_value("reason"), Some("malformed-response"));

    let refused = check_reply("getNetwork", url, &RpcReply::Refused { code: -32601, message: "method not found".to_owned() })
        .unwrap_err();
    assert_eq!(refused.message(), "the node refused getNetwork with error -32601: method not found");
    assert_eq!(refused.context_value("reason"), Some("rpc-error"));

    let down = unreachable_node("getNetwork", url, "connection refused");
    assert_eq!(down.message(), "getNetwork could not be completed: connection refused");
    assert_eq!(down.class().blame().exit_code(), 4);
}

#[test]
fn resolution_asks_for_the_identity_then_the_instance_then_its_code() {
    let (state, action) = resolve_step("CABC", "testnet", Resolution::Start, LedgerAnswer::Begin);
    assert_eq!(action, ResolutionAction::AskIdentity);
    let (state, action) = resolve_step("CABC", "testnet", state, LedgerAnswer::Identified);
    assert_eq!(action, ResolutionAction::AskInstance);
    let code = b"\0asm\x01\0\0\0".to_vec();
    let hash = Sha256::digest(&code).to_vec();
    let (state, action) =
        resolve_step("CABC", "testnet", state, LedgerAnswer::Instance { entry: Some(Some(hash.clone())) });
    assert_eq!(action, ResolutionAction::AskCode { hash: hash.clone() });
    let (state, action) = resolve_step("CABC", "testnet", state, LedgerAnswer::Code { entry: Some(Some(code.clone())) });
    assert_eq!(state, Resolution::Settled);
    assert_eq!(action, ResolutionAction::Measure { hash, wasm: code });
}

#[test]
fn a_contract_that_cannot_be_read_is_refused_with_the_reason() {
    let missing = resolve_step("CABC", "testnet", Resolution::ReadingInstance, LedgerAnswer::Instance { entry: None }).1;
    let ResolutionAction::Refuse { failure } = missing else { panic!("a missing instance must be refused") };
    assert_eq!(failure.class(), ErrorClass::ContractResolutionError);
    assert_eq!(failure.context_value("reason"), Some("contract-not-found"));

    let asset = resolve_step("CABC", "testnet", Resolution::ReadingInstance, LedgerAnswer::Instance { entry: Some(None) }).1;
    let ResolutionAction::Refuse { failure } = asset else { panic!("an asset contract must be refused") };
    assert_eq!(failure.context_value("reason"), Some("host-implemented-contract"));

    let hash = vec![1u8; 32];
    let gone = resolve_step("CABC", "testnet", Resolution::ReadingCode { hash: hash.clone() }, LedgerAnswer::Code { entry: None }).1;
    let ResolutionAction::Refuse { failure } = gone else { panic!("missing code must be refused") };
    assert_eq!(failure.context_value("reason"), Some("code-entry-missing"));
    assert!(failure.message().contains(&"01".repeat(32)));

    let wrong = resolve_step(
        "CABC",
        "testnet",
        Resolution::ReadingCode { hash },
        LedgerAnswer::Code { entry: Some(Some(b"\0asm".to_vec())) },
    )
    .1;
    let ResolutionAction::Refuse { failure } = wrong else { panic!("mismatched code must be refused") };
    assert_eq!(failure.class(), ErrorClass::NetworkError);
    assert_eq!(failure.context_value("reason"), Some("artifact-hash-mismatch"));
    assert_eq!(failure.class().blame().exit_code(), 4);
}

/// Contract code as it appears inside a `ContractCode` ledger entry.
fn code_entry(module: &[u8]) -> LedgerEntryData {
    let hash = stellar_xdr::curr::Hash(Sha256::digest(module).into());
    LedgerEntryData::ContractCode(ContractCodeEntry {
        ext: ContractCodeEntryExt::V0,
        hash,
        code: BytesM::try_from(module.to_vec()).unwrap(),
    })
}

/// The data field of an entry, as a node sends it.
fn data_field(data: &LedgerEntryData) -> Option<String> {
    Some(data.to_xdr_base64(Limits::none()).unwrap())
}

/// The code an assembled entry stores, when it is a code entry.
fn stored_code(entry: &NodeEntry) -> Option<Vec<u8>> {
    match &entry.data {
        LedgerEntryData::ContractCode(code) => Some(code.code.to_vec()),
        _ => None,
    }
}

#[test]
fn a_node_s_decomposed_entry_field_is_the_entry_data_not_a_whole_entry() {
    let module = b"\0asm\x01\0\0\0";
    let xdr = data_field(&code_entry(module));

    let assembled = assemble_entry(xdr.clone(), Some(4_609_662), None).expect("a well-formed entry must assemble");
    assert_eq!(assembled.last_modified_ledger_seq, 4_609_662);
    assert_eq!(
        stored_code(&assembled).as_deref(),
        Some(module.as_slice()),
        "the bytes must survive the round trip through the accessor the transport reads"
    );

    let as_whole_entry = LedgerEntry::from_xdr_base64(xdr.unwrap(), Limits::none());
    assert!(as_whole_entry.is_err(), "if a node ever did send a whole entry here, this test would need rewriting");
}

#[test]
fn an_absent_extension_assembles_as_the_empty_one() {
    let assembled = assemble_entry(data_field(&code_entry(b"\0asm")), Some(4_609_662), None).unwrap();
    assert!(
        matches!(assembled.ext, EntryExtension::Empty),
        "an entry with nothing to say about itself is the V0 extension"
    );
}

#[test]
fn an_entry_without_a_ledger_sequence_is_refused_rather_than_defaulted() {
    let problem = assemble_entry(data_field(&code_entry(b"\0asm")), None, None).unwrap_err();
    assert_eq!(problem.class(), ErrorClass::NetworkError);
    assert_eq!(problem.context_value("reason"), Some("malformed-response"));
}

#[test]
fn an_entry_without_data_is_refused() {
    let problem = assemble_entry(None, Some(4_609_662), None).unwrap_err();
    assert_eq!(problem.class(), ErrorClass::NetworkError);
    assert_eq!(problem.context_value("reason"), Some("malformed-response"));
}

#[test]
fn undecodable_entry_data_is_named_as_such() {
    let problem = assemble_entry(Some("bm90IHhkcg==".to_owned()), Some(4_609_662), None).unwrap_err();
    assert_eq!(problem.class(), ErrorClass::NetworkError);
    assert_eq!(problem.context_value("reason"), Some("undecodable-ledger-entry"));
}

#[test]
fn an_undecodable_extension_is_refused_rather_than_ignored() {
    let problem =
        assemble_entry(data_field(&code_entry(b"\0asm")), Some(4_609_662), Some("bm90IHhkcg==".to_owned())).unwrap_err();
    assert_eq!(problem.class(), ErrorClass::NetworkError);
    assert_eq!(problem.context_value("reason"), Some("undecodable-ledger-entry"));
}

#[test]
fn a_ledger_sequence_past_thirty_two_bits_is_refused_and_a_present_extension_is_read() {
    let problem = assemble_entry(data_field(&code_entry(b"\0asm")), Some(1 << 32), None).unwrap_err();
    assert_eq!(problem.message(), "the node returned a ledger entry without the ledger sequence that last modified it");
    assert_eq!(problem.context_value("reason"), Some("malformed-response"));

    let ext = LedgerEntryExt::V0.to_xdr_base64(Limits::none()).unwrap();
    let assembled = assemble_entry(data_field(&code_entry(b"\0asm")), Some(u64::from(u32::MAX)), Some(ext)).unwrap();
    assert_eq!(assembled.last_modified_ledger_seq, u32::MAX);
    assert!(matches!(assembled.ext, EntryExtension::Sent(LedgerEntryExt::V0)));
    assert_eq!(stored_code(&assembled).as_deref(), Some(b"\0asm".as_slice()));

    let missing = assemble_entry(None, None, None).unwrap_err();
    assert_eq!(missing.message(), "the node returned a ledger entry without the data XDR");
    let undecodable = assemble_entry(Some("bm90IHhkcg==".to_owned()), None, None).unwrap_err();
    assert!(undecodable.message().starts_with("a ledger entry could not be decoded: "), "{}", undecodable.message());
}
