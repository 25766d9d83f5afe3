//! Naming a deployed contract and the network it is on, and checking what was read.
//!
//! Every failure here is an environment or usage failure, never a contract failure:
//! not being able to read a contract says nothing about how it behaves. A contract
//! that does not exist is distinguished from a network that could not be reached, and
//! code that does not hash to what the ledger declares is refused rather than measured.
use vstd::prelude::*;

use crate::digest::{hex_lower, sha256, sha256_digest, spec_hex};
use crate::taxonomy::{ErrorClass, Failure, context_view};
use crate::text::{
    bytes_eq, chars_of, decimal_text, occurs_in, owned, spec_starts_with, push_char, push_str, signed_decimal_text, spec_decimal, spec_signed_decimal, str_eq,
    text_from_chars,
};

verus! {

/// The largest artifact this runner will fetch, in bytes.
pub const MAX_ARTIFACT_BYTES: usize = 4194304;

/// The environment variable that names an endpoint for any other network.
pub const RPC_URL_VARIABLE: &'static str = "ESTAMORA_RPC_URL";

/// A network and the RPC endpoint that reaches it.
#[derive(Debug, PartialEq, Eq)]
pub struct Network {
    pub name: String,
    pub rpc_url: String,
}

/// The endpoint this build knows for a network name.
pub open spec fn known_endpoint(name: Seq<char>) -> Option<Seq<char>> {
    if name == "testnet"@ {
        Some("https://soroban-testnet.stellar.org"@)
    } else if name == "mainnet"@ {
        Some("https://soroban-rpc.mainnet.stellar.gateway.fm"@)
    } else {
        None
    }
}

/// Each network this build knows is reached at an endpoint of its own: the endpoint is
/// an `https` address that names the network, so two known names never share one, and
/// only `testnet` and `mainnet` are known.
pub proof fn law_each_known_network_has_its_own_endpoint(a: Seq<char>, b: Seq<char>)
    ensures
        known_endpoint(a) is Some ==> a == "testnet"@ || a == "mainnet"@,
        known_endpoint(a) is Some ==> spec_starts_with(known_endpoint(a)->0, "https://"@),
        known_endpoint(a) is Some ==> occurs_in(a, known_endpoint(a)->0),
        known_endpoint(a) is Some && known_endpoint(b) is Some && a != b ==> known_endpoint(a) != known_endpoint(b),
{
    reveal_strlit("testnet");
    reveal_strlit("mainnet");
    reveal_strlit("https://");
    reveal_strlit("https://soroban-testnet.stellar.org");
    reveal_strlit("https://soroban-rpc.mainnet.stellar.gateway.fm");
    let t: Seq<char> = "https://soroban-testnet.stellar.org"@;
    let m: Seq<char> = "https://soroban-rpc.mainnet.stellar.gateway.fm"@;
    assert(t.take(8) =~= "https://"@);
    assert(m.take(8) =~= "https://"@);
    assert(t.subrange(16int, 23int) =~= "testnet"@);
    assert(m.subrange(20int, 27int) =~= "mainnet"@);
    assert(t.subrange(16int, 16int + "testnet"@.len()) == "testnet"@);
    assert(m.subrange(20int, 20int + "mainnet"@.len()) == "mainnet"@);
    assert(occurs_in("testnet"@, t));
    assert(occurs_in("mainnet"@, m));
    assert(t.len() != m.len());
    assert("testnet"@ != "mainnet"@) by {
        assert("testnet"@[0] != "mainnet"@[0]);
    }
}

/// The refusal of a network name this build does not know.
pub open spec fn unknown_network_message(name: Seq<char>) -> Seq<char> {
    "`"@ + name + "` is not a network this build knows. Known networks: testnet, mainnet. Any other endpoint can be named through $"@
        + "ESTAMORA_RPC_URL"@
}

impl Network {
    /// The network named `name`: reached through `override_url` when one is given
    /// and not empty, otherwise through the endpoint this build knows for the name; a
    /// name it does not know is a usage error that lists the known ones.
    pub fn lookup(name: &str, override_url: Option<&str>) -> (res: Result<Self, Failure>)
        ensures
            match override_url {
                Some(url) if url@.len() > 0 => res matches Ok(n) && n.name@ == name@ && n.rpc_url@ == url@,
                _ => match known_endpoint(name@) {
                    Some(url) => res matches Ok(n) && n.name@ == name@ && n.rpc_url@ == url,
                    None => res matches Err(f) && f.class == ErrorClass::UsageError
                        && f.message@ == unknown_network_message(name@)
                        && context_view(f.context@) == seq![("network"@, name@)],
                },
            },
    {
        match override_url {
            Some(url) => {
                if chars_of(url).len() > 0 {
                    return Ok(Network { name: owned(name), rpc_url: owned(url) });
                }
            },
            None => {},
        }
        proof {
            reveal_strlit("testnet");
            reveal_strlit("mainnet");
        }
        if str_eq(name, "testnet") {
            return Ok(Network { name: owned("testnet"), rpc_url: owned("https://soroban-testnet.stellar.org") });
        }
        if str_eq(name, "mainnet") {
            return Ok(Network { name: owned("mainnet"), rpc_url: owned("https://soroban-rpc.mainnet.stellar.gateway.fm") });
        }
        let mut message = owned("`");
        push_str(&mut message, name);
        push_str(&mut message, "` is not a network this build knows. Known networks: testnet, mainnet. Any other endpoint can be named through $");
        push_str(&mut message, RPC_URL_VARIABLE);
        let failure = Failure::new(ErrorClass::UsageError, message).with_context("network", owned(name));
        proof { assert(context_view(failure.context@) =~= seq![("network"@, name@)]); }
        Err(failure)
    }
}

/// How many bytes UTF-8 writes a character in.
pub open spec fn utf8_len(c: char) -> nat {
    if (c as u32) < 0x80 { 1 } else if (c as u32) < 0x800 { 2 } else if (c as u32) < 0x10000 { 3 } else { 4 }
}

/// How many bytes UTF-8 writes a text in.
pub open spec fn byte_len(s: Seq<char>) -> nat
    decreases s.len(),
{
    if s.len() == 0 { 0 } else { byte_len(s.drop_last()) + utf8_len(s.last()) }
}

/// The longest prefix of `s` whose UTF-8 form fits in `limit` bytes, as a count of
/// characters.
pub open spec fn fitting_prefix(s: Seq<char>, limit: nat) -> int {
    choose|k: int| #[trigger] longest_fitting(s, limit, k)
}

/// Whether the first `k` characters fit in `limit` bytes and one more would not.
pub open spec fn longest_fitting(s: Seq<char>, limit: nat, k: int) -> bool {
    0 <= k <= s.len() && byte_len(s.take(k)) <= limit && (k == s.len() || byte_len(s.take(k + 1)) > limit)
}

/// A text shortened for a message: unchanged when its UTF-8 form fits in `limit`
/// bytes; otherwise cut on a character boundary to the longest prefix that fits, with
/// an ellipsis.
pub open spec fn spec_truncate(s: Seq<char>, limit: nat) -> Seq<char> {
    if byte_len(s) <= limit {
        s
    } else {
        s.take(fitting_prefix(s, limit)).push('\u{2026}')
    }
}

fn utf8_width(c: char) -> (res: usize)
    ensures
        res == utf8_len(c),
{
    let n = c as u32;
    if n < 0x80 { 1 } else if n < 0x800 { 2 } else if n < 0x10000 { 3 } else { 4 }
}

/// Shortens a text for a message, on a character boundary.
pub fn truncate(text: &str, limit: usize) -> (res: String)
    ensures
        res@ == spec_truncate(text@, limit as nat),
{
    let chars = chars_of(text);
    let mut used: usize = 0;
    let mut k: usize = 0;
    loop
        invariant
            chars@ == text@,
            k <= chars@.len(),
            used == byte_len(chars@.take(k as int)),
            used <= limit,
        ensures
            k <= chars@.len(),
            used == byte_len(chars@.take(k as int)),
            used <= limit,
            k == chars@.len() || byte_len(chars@.take(k as int + 1)) > limit,
        decreases chars@.len() - k,
    {
        if k >= chars.len() {
            break;
        }
        let w = utf8_width(chars[k]);
        proof {
            assert(chars@.take(k as int + 1).drop_last() =~= chars@.take(k as int));
            assert(chars@.take(k as int + 1).last() == chars@[k as int]);
        }
        if w > limit - used {
            break;
        }
        used = used + w;
        k = k + 1;
    }
    if k == chars.len() {
        proof { assert(chars@.take(k as int) =~= chars@); }
        return owned(text);
    }
    proof {
        assert(byte_len(chars@.take(k as int + 1)) > limit);
        lemma_byte_len_prefix(chars@, k as int + 1);
        assert(byte_len(chars@) > limit);
        let f = fitting_prefix(chars@, limit as nat);
        assert(longest_fitting(chars@, limit as nat, k as int));
        lemma_fitting_unique(chars@, limit as nat, f, k as int);
    }
    let mut out = text_from_chars(&chars.as_slice()[0..k]);
    push_char(&mut out, '\u{2026}');
    proof { assert(chars@.subrange(0, k as int) =~= chars@.take(k as int)); }
    out
}

/// A longer prefix takes at least as many bytes.
proof fn lemma_byte_len_prefix(s: Seq<char>, k: int)
    requires
        0 <= k <= s.len(),
    ensures
        byte_len(s.take(k)) <= byte_len(s),
    decreases s.len() - k,
{
    if k < s.len() {
        lemma_byte_len_prefix(s, k + 1);
        assert(s.take(k + 1).drop_last() =~= s.take(k));
    } else {
        assert(s.take(k) =~= s);
    }
}

/// There is one longest fitting prefix.
proof fn lemma_fitting_unique(s: Seq<char>, limit: nat, a: int, b: int)
    requires
        0 <= b <= s.len() && byte_len(s.take(b)) <= limit && (b == s.len() || byte_len(s.take(b + 1)) > limit),
        a == fitting_prefix(s, limit),
    ensures
        a == b,
{
    assert(longest_fitting(s, limit, b));
    assert(longest_fitting(s, limit, a));
    if a < b {
        lemma_prefix_monotone(s, a + 1, b);
    } else if b < a {
        lemma_prefix_monotone(s, b + 1, a);
    }
}

/// Byte length grows with the prefix.
proof fn lemma_prefix_monotone(s: Seq<char>, i: int, j: int)
    requires
        0 <= i <= j <= s.len(),
    ensures
        byte_len(s.take(i)) <= byte_len(s.take(j)),
    decreases j - i,
{
    if i < j {
        lemma_prefix_monotone(s, i, j - 1);
        assert(s.take(j).drop_last() =~= s.take(j - 1));
    }
}

/// What decoding a strkey gives: `Ok(Some(bytes))` for a contract's 32 bytes,
/// `Ok(None)` for a well-formed key of another kind, or the decoder's account of why the
/// text is not a strkey.
pub uninterp spec fn strkey_reading(text: Seq<char>) -> Result<Option<Seq<u8>>, Seq<char>>;

/// Decodes a strkey.
///
/// Calls `stellar_strkey::Strkey::from_string`; a `Contract` key gives its 32 bytes,
/// any other kind of key gives `None`, and a decode error gives its `Display` text.
#[verifier::external_body]
fn read_strkey(text: &str) -> (res: Result<Option<Vec<u8>>, String>)
    ensures
        match (res, strkey_reading(text@)) {
            (Ok(Some(a)), Ok(Some(b))) => a@ == b && a@.len() == 32,
            (Ok(None), Ok(None)) => true,
            (Err(a), Err(b)) => a@ == b,
            _ => false,
        },
{
    match stellar_strkey::Strkey::from_string(text) {
        Ok(stellar_strkey::Strkey::Contract(contract)) => Ok(Some(contract.0.to_vec())),
        Ok(_) => Ok(None),
        Err(problem) => Err(problem.to_string()),
    }
}

/// The refusal of an identifier that is not a contract's.
pub open spec fn not_a_contract(text: Seq<char>) -> Seq<char> {
    "`"@ + text + "` is not a contract identifier"@
}

/// The reason given when the identifier is another kind of key.
pub open spec fn account_reason() -> Seq<char> {
    "the identifier is a well-formed Stellar account key rather than a contract's, and only a contract has an artifact to measure"@
}

/// The contract a decoded strkey names: its 32 bytes, or a usage error naming the
/// identifier and why it is not a contract's.
pub fn contract_id_from(text: &str, reading: Result<Option<Vec<u8>>, String>) -> (res: Result<Vec<u8>, Failure>)
    ensures
        match reading {
            Ok(Some(bytes)) => res matches Ok(b) && b@ == bytes@,
            Ok(None) => res matches Err(f) && f.class == ErrorClass::UsageError && f.message@ == not_a_contract(text@)
                && context_view(f.context@) == seq![("contract"@, text@), ("reason"@, account_reason())],
            Err(problem) => res matches Err(f) && f.class == ErrorClass::UsageError && f.message@ == not_a_contract(text@)
                && context_view(f.context@) == seq![("contract"@, text@), ("reason"@, problem@)],
        },
{
    match reading {
        Ok(Some(bytes)) => Ok(bytes),
        Ok(None) => {
            let failure = usage(text).with_context("reason", owned("the identifier is a well-formed Stellar account key rather than a contract's, and only a contract has an artifact to measure"));
            proof { assert(context_view(failure.context@) =~= seq![("contract"@, text@), ("reason"@, account_reason())]); }
            Err(failure)
        },
        Err(problem) => {
            let ghost p = problem@;
            let failure = usage(text).with_context("reason", problem);
            proof { assert(context_view(failure.context@) =~= seq![("contract"@, text@), ("reason"@, p)]); }
            Err(failure)
        },
    }
}

fn usage(text: &str) -> (res: Failure)
    ensures
        res.class == ErrorClass::UsageError,
        res.message@ == not_a_contract(text@),
        context_view(res.context@) == seq![("contract"@, text@)],
{
    let mut message = owned("`");
    push_str(&mut message, text);
    push_str(&mut message, "` is not a contract identifier");
    let failure = Failure::new(ErrorClass::UsageError, message).with_context("contract", owned(text));
    proof { assert(context_view(failure.context@) =~= seq![("contract"@, text@)]); }
    failure
}

/// Reads a contract identifier: a contract's strkey gives its 32 bytes; anything else
/// is a usage error, refused before any network is reached.
pub fn parse_contract_id(text: &str) -> (res: Result<Vec<u8>, Failure>)
    ensures
        match strkey_reading(text@) {
            Ok(Some(bytes)) => res matches Ok(b) && b@ == bytes,
            Ok(None) => res matches Err(f) && f.class == ErrorClass::UsageError && f.message@ == not_a_contract(text@)
                && context_view(f.context@) == seq![("contract"@, text@), ("reason"@, account_reason())],
            Err(problem) => res matches Err(f) && f.class == ErrorClass::UsageError && f.message@ == not_a_contract(text@)
                && context_view(f.context@) == seq![("contract"@, text@), ("reason"@, problem)],
        },
{
    contract_id_from(text, read_strkey(text))
}

/// The refusal of code that does not hash to what the contract declares.
pub open spec fn hash_mismatch_message(actual: Seq<u8>, declared: Seq<u8>) -> Seq<char> {
    "the code read for this contract hashes to "@ + spec_hex(actual) + " but the contract instance declares "@ + spec_hex(declared)
        + ". The artifact and the ledger disagree, so no verdict about this contract was reached"@
}

/// Accepts code whose digest is the one the contract declares, and refuses any other
/// as a network error naming both digests.
pub fn hash_outcome(declared: &Vec<u8>, actual: &Vec<u8>) -> (res: Result<(), Failure>)
    ensures
        actual@ == declared@ ==> res is Ok,
        actual@ != declared@ ==> (res matches Err(f) && f.class == ErrorClass::NetworkError
            && f.message@ == hash_mismatch_message(actual@, declared@)
            && context_view(f.context@) == seq![("reason"@, "artifact-hash-mismatch"@)]),
{
    if bytes_eq(actual.as_slice(), declared.as_slice()) {
        return Ok(());
    }
    let mut message = owned("the code read for this contract hashes to ");
    push_str(&mut message, hex_lower(actual.as_slice()).as_str());
    push_str(&mut message, " but the contract instance declares ");
    push_str(&mut message, hex_lower(declared.as_slice()).as_str());
    push_str(&mut message, ". The artifact and the ledger disagree, so no verdict about this contract was reached");
    let failure = Failure::new(ErrorClass::NetworkError, message).with_context("reason", owned("artifact-hash-mismatch"));
    proof { assert(context_view(failure.context@) =~= seq![("reason"@, "artifact-hash-mismatch"@)]); }
    Err(failure)
}

/// Checks that `wasm` hashes to the SHA-256 digest the contract declares.
pub fn verify_code_hash(declared: &Vec<u8>, wasm: &[u8]) -> (res: Result<(), Failure>)
    ensures
        sha256_digest(wasm@) == declared@ ==> res is Ok,
        sha256_digest(wasm@) != declared@ ==> (res matches Err(f) && f.class == ErrorClass::NetworkError
            && f.message@ == hash_mismatch_message(sha256_digest(wasm@), declared@)
            && context_view(f.context@) == seq![("reason"@, "artifact-hash-mismatch"@)]),
{
    let actual = sha256(wasm);
    hash_outcome(declared, &actual)
}

/// What decoding standard base64 gives: the bytes, or the decoder's account of why the
/// text is not base64.
pub uninterp spec fn base64_standard(value: Seq<char>) -> Result<Seq<u8>, Seq<char>>;

/// Decodes standard, padded base64.
///
/// Calls `base64::engine::general_purpose::STANDARD.decode`; an error gives its
/// `Display` text.
#[verifier::external_body]
fn decode_standard(value: &str) -> (res: Result<Vec<u8>, String>)
    ensures
        match (res, base64_standard(value@)) {
            (Ok(a), Ok(b)) => a@ == b,
            (Err(a), Err(b)) => a@ == b,
            _ => false,
        },
{
    <base64::engine::GeneralPurpose as base64::Engine>::decode(&base64::engine::general_purpose::STANDARD, value)
        .map_err(|problem| problem.to_string())
}

/// The bytes a base64 decoding gave, or a network error naming why the node's text was
/// not base64.
pub fn base64_outcome(decoded: Result<Vec<u8>, String>) -> (res: Result<Vec<u8>, Failure>)
    ensures
        match decoded {
            Ok(bytes) => res matches Ok(b) && b@ == bytes@,
            Err(problem) => res matches Err(f) && f.class == ErrorClass::NetworkError
                && f.message@ == "a ledger entry was not valid base64: "@ + problem@
                && context_view(f.context@) == seq![("reason"@, "malformed-response"@)],
        },
{
    match decoded {
        Ok(bytes) => Ok(bytes),
        Err(problem) => {
            let mut message = owned("a ledger entry was not valid base64: ");
            push_str(&mut message, problem.as_str());
            let failure = Failure::new(ErrorClass::NetworkError, message).with_context("reason", owned("malformed-response"));
            proof { assert(context_view(failure.context@) =~= seq![("reason"@, "malformed-response"@)]); }
            Err(failure)
        },
    }
}

/// Decodes a base64 field of a node's answer.
pub fn decode_base64(value: &str) -> (res: Result<Vec<u8>, Failure>)
    ensures
        match base64_standard(value@) {
            Ok(bytes) => res matches Ok(b) && b@ == bytes,
            Err(problem) => res matches Err(f) && f.class == ErrorClass::NetworkError
                && f.message@ == "a ledger entry was not valid base64: "@ + problem
                && context_view(f.context@) == seq![("reason"@, "malformed-response"@)],
        },
{
    base64_outcome(decode_standard(value))
}

/// The refusal of code larger than this runner fetches.
pub open spec fn oversized_message(contract_id: Seq<char>, size: nat) -> Seq<char> {
    "the code behind "@ + contract_id + " is "@ + spec_decimal(size) + " bytes, above the "@ + spec_decimal(MAX_ARTIFACT_BYTES as nat)
        + "-byte limit this runner will fetch"@
}

/// Checks the code read for a contract before it is measured: no larger than this
/// runner fetches, and hashing to the digest the contract declares; a mismatch names the
/// contract and the network it was read from.
pub fn check_artifact(contract_id: &str, network: &str, declared: &Vec<u8>, wasm: &Vec<u8>) -> (res: Result<(), Failure>)
    ensures
        wasm@.len() > MAX_ARTIFACT_BYTES ==> (res matches Err(f) && f.class == ErrorClass::ContractResolutionError
            && f.message@ == oversized_message(contract_id@, wasm@.len())),
        wasm@.len() <= MAX_ARTIFACT_BYTES && sha256_digest(wasm@) == declared@ ==> res is Ok,
        wasm@.len() <= MAX_ARTIFACT_BYTES && sha256_digest(wasm@) != declared@ ==> (res matches Err(f)
            && f.class == ErrorClass::NetworkError
            && f.message@ == hash_mismatch_message(sha256_digest(wasm@), declared@)
            && context_view(f.context@) == seq![("reason"@, "artifact-hash-mismatch"@), ("contract"@, contract_id@), ("network"@, network@)]),
{
    if wasm.len() > MAX_ARTIFACT_BYTES {
        let mut message = owned("the code behind ");
        push_str(&mut message, contract_id);
        push_str(&mut message, " is ");
        push_str(&mut message, decimal_text(wasm.len() as u64).as_str());
        push_str(&mut message, " bytes, above the ");
        push_str(&mut message, decimal_text(MAX_ARTIFACT_BYTES as u64).as_str());
        push_str(&mut message, "-byte limit this runner will fetch");
        return Err(Failure::new(ErrorClass::ContractResolutionError, message));
    }
    match verify_code_hash(declared, wasm.as_slice()) {
        Ok(()) => Ok(()),
        Err(f) => {
            let failure = f.with_context("contract", owned(contract_id)).with_context("network", owned(network));
            proof {
                assert(context_view(failure.context@) =~= seq![("reason"@, "artifact-hash-mismatch"@), ("contract"@, contract_id@), ("network"@, network@)]);
            }
            Err(failure)
        },
    }
}

/// How far resolving a deployed contract has got: each state names what was last asked
/// of the network.
#[derive(Debug, PartialEq, Eq)]
pub enum Resolution {
    /// Nothing has been asked yet.
    Start,
    /// The network was asked to identify itself.
    Identifying,
    /// The contract's instance entry was asked for.
    ReadingInstance,
    /// The code entry for `hash` was asked for.
    ReadingCode { hash: Vec<u8> },
    /// The resolution ended, with code to measure or with a refusal.
    Settled,
}

/// What the network answered to the last question.
#[derive(Debug, PartialEq, Eq)]
pub enum LedgerAnswer {
    /// Nothing was asked yet; resolution begins.
    Begin,
    /// The network identified itself.
    Identified,
    /// The instance entry: absent, or present with the hash of the code it runs, which
    /// is absent for a contract the host implements.
    Instance { entry: Option<Option<Vec<u8>>> },
    /// The code entry: absent, or present with the code it stores, which is absent when
    /// the entry is not a contract code entry.
    Code { entry: Option<Option<Vec<u8>>> },
}

/// What to do next.
#[derive(Debug, PartialEq)]
pub enum ResolutionAction {
    /// Ask the network for its passphrase and protocol version.
    AskIdentity,
    /// Ask for the contract's instance entry.
    AskInstance,
    /// Ask for the code entry whose hash is `hash`.
    AskCode { hash: Vec<u8> },
    /// Measure `wasm`, which hashes to `hash`.
    Measure { hash: Vec<u8>, wasm: Vec<u8> },
    /// Stop: nothing can be measured.
    Refuse { failure: Failure },
}

/// Whether `answer` answers what `state` asked.
pub open spec fn answers(state: Resolution, answer: LedgerAnswer) -> bool {
    match state {
        Resolution::Start => answer is Begin,
        Resolution::Identifying => answer is Identified,
        Resolution::ReadingInstance => answer is Instance,
        Resolution::ReadingCode { .. } => answer is Code,
        Resolution::Settled => false,
    }
}

/// The refusal of a contract that has no instance on the network.
pub open spec fn not_found_message(contract_id: Seq<char>, network: Seq<char>) -> Seq<char> {
    "no contract instance is stored at "@ + contract_id + " on `"@ + network
        + "`. The identifier is well formed, so this is a contract that does not exist on that network rather than one that could not be read"@
}

/// The refusal of a contract the host implements.
pub open spec fn host_implemented_message(contract_id: Seq<char>, network: Seq<char>) -> Seq<char> {
    contract_id + " on `"@ + network
        + "` is a Stellar Asset Contract, whose behaviour is implemented by the host rather than by a deployed artifact. There is no WebAssembly to measure, so no portability profile can be applied to it"@
}

/// The refusal of an instance whose code is not stored.
pub open spec fn code_missing_message(contract_id: Seq<char>, network: Seq<char>, hash: Seq<u8>) -> Seq<char> {
    contract_id + " on `"@ + network + "` names code "@ + spec_hex(hash)
        + " but no such code entry is stored. The ledger is inconsistent with itself, so nothing was measured"@
}

/// The refusal of a code entry that holds no code.
pub open spec fn not_code_message(contract_id: Seq<char>) -> Seq<char> {
    "the code entry for "@ + contract_id + " is not a contract code entry"@
}

/// One step of resolving the contract `contract_id` on `network`: from what was asked
/// and what the network answered, what to ask next, or the code to measure, or why
/// nothing can be measured. Every way of not reading a contract is an environment
/// failure, which ends a run with exit code 4 and never reads as a contract that failed
/// its profile. It asks for the network's identity, then for the
/// contract's instance, then for the code the instance names, and accepts that code
/// only when it is within the size this runner fetches and hashes to what the instance
/// declares.
pub fn resolve_step(contract_id: &str, network: &str, state: Resolution, answer: LedgerAnswer) -> (res: (Resolution, ResolutionAction))
    requires
        answers(state, answer),
    ensures
        res.1 matches ResolutionAction::Refuse { failure: f } ==> f.class.spec_blame() is Environment
            && f.class.spec_blame().spec_exit_code() == 4,
        match (state, answer) {
            (Resolution::Start, _) => res.0 is Identifying && res.1 is AskIdentity,
            (Resolution::Identifying, _) => res.0 is ReadingInstance && res.1 is AskInstance,
            (Resolution::ReadingInstance, LedgerAnswer::Instance { entry }) => match entry {
                None => res.0 is Settled && (res.1 matches ResolutionAction::Refuse { failure: f }
                    && f.class == ErrorClass::ContractResolutionError
                    && f.message@ == not_found_message(contract_id@, network@)
                    && context_view(f.context@) == seq![("reason"@, "contract-not-found"@)]),
                Some(None) => res.0 is Settled && (res.1 matches ResolutionAction::Refuse { failure: f }
                    && f.class == ErrorClass::ContractResolutionError
                    && f.message@ == host_implemented_message(contract_id@, network@)
                    && context_view(f.context@) == seq![("reason"@, "host-implemented-contract"@)]),
                Some(Some(hash)) => (res.0 matches Resolution::ReadingCode { hash: h } && h@ == hash@)
                    && (res.1 matches ResolutionAction::AskCode { hash: asked } && asked@ == hash@),
            },
            (Resolution::ReadingCode { hash }, LedgerAnswer::Code { entry }) => res.0 is Settled && (match entry {
                None => res.1 matches ResolutionAction::Refuse { failure: f }
                    && f.class == ErrorClass::ContractResolutionError
                    && f.message@ == code_missing_message(contract_id@, network@, hash@)
                    && context_view(f.context@) == seq![("reason"@, "code-entry-missing"@)],
                Some(None) => res.1 matches ResolutionAction::Refuse { failure: f }
                    && f.class == ErrorClass::ContractResolutionError
                    && f.message@ == not_code_message(contract_id@) && f.context@.len() == 0,
                Some(Some(wasm)) => if wasm@.len() > MAX_ARTIFACT_BYTES {
                    res.1 matches ResolutionAction::Refuse { failure: f } && f.class == ErrorClass::ContractResolutionError
                        && f.message@ == oversized_message(contract_id@, wasm@.len())
                } else if sha256_digest(wasm@) != hash@ {
                    res.1 matches ResolutionAction::Refuse { failure: f } && f.class == ErrorClass::NetworkError
                        && f.message@ == hash_mismatch_message(sha256_digest(wasm@), hash@)
                        && context_view(f.context@) == seq![("reason"@, "artifact-hash-mismatch"@), ("contract"@, contract_id@), ("network"@, network@)]
                } else {
                    res.1 matches ResolutionAction::Measure { hash: h, wasm: w } && h@ == hash@ && w@ == wasm@
                },
            }),
            _ => false,
        },
{
    match state {
        Resolution::Start => (Resolution::Identifying, ResolutionAction::AskIdentity),
        Resolution::Identifying => (Resolution::ReadingInstance, ResolutionAction::AskInstance),
        Resolution::ReadingInstance => {
            let entry = match answer {
                LedgerAnswer::Instance { entry } => entry,
                _ => {
                    proof { assert(false); }
                    None
                },
            };
            match entry {
                None => {
                    let mut message = owned("no contract instance is stored at ");
                    push_str(&mut message, contract_id);
                    push_str(&mut message, " on `");
                    push_str(&mut message, network);
                    push_str(&mut message, "`. The identifier is well formed, so this is a contract that does not exist on that network rather than one that could not be read");
                    let failure = Failure::new(ErrorClass::ContractResolutionError, message)
                        .with_context("reason", owned("contract-not-found"));
                    proof { assert(context_view(failure.context@) =~= seq![("reason"@, "contract-not-found"@)]); }
                    (Resolution::Settled, ResolutionAction::Refuse { failure })
                },
                Some(None) => {
                    let mut message = owned(contract_id);
                    push_str(&mut message, " on `");
                    push_str(&mut message, network);
                    push_str(&mut message, "` is a Stellar Asset Contract, whose behaviour is implemented by the host rather than by a deployed artifact. There is no WebAssembly to measure, so no portability profile can be applied to it");
                    let failure = Failure::new(ErrorClass::ContractResolutionError, message)
                        .with_context("reason", owned("host-implemented-contract"));
                    proof { assert(context_view(failure.context@) =~= seq![("reason"@, "host-implemented-contract"@)]); }
                    (Resolution::Settled, ResolutionAction::Refuse { failure })
                },
                Some(Some(hash)) => {
                    let asked = hash.clone();
                    (Resolution::ReadingCode { hash }, ResolutionAction::AskCode { hash: asked })
                },
            }
        },
        Resolution::ReadingCode { hash } => {
            let entry = match answer {
                LedgerAnswer::Code { entry } => entry,
                _ => {
                    proof { assert(false); }
                    None
                },
            };
            match entry {
                None => {
                    let mut message = owned(contract_id);
                    push_str(&mut message, " on `");
                    push_str(&mut message, network);
                    push_str(&mut message, "` names code ");
                    push_str(&mut message, hex_lower(hash.as_slice()).as_str());
                    push_str(&mut message, " but no such code entry is stored. The ledger is inconsistent with itself, so nothing was measured");
                    let failure = Failure::new(ErrorClass::ContractResolutionError, message)
                        .with_context("reason", owned("code-entry-missing"));
                    proof { assert(context_view(failure.context@) =~= seq![("reason"@, "code-entry-missing"@)]); }
                    (Resolution::Settled, ResolutionAction::Refuse { failure })
                },
                Some(None) => {
                    let mut message = owned("the code entry for ");
                    push_str(&mut message, contract_id);
                    push_str(&mut message, " is not a contract code entry");
                    (Resolution::Settled, ResolutionAction::Refuse { failure: Failure::new(ErrorClass::ContractResolutionError, message) })
                },
                Some(Some(wasm)) => match check_artifact(contract_id, network, &hash, &wasm) {
                    Ok(()) => (Resolution::Settled, ResolutionAction::Measure { hash, wasm }),
                    Err(failure) => (Resolution::Settled, ResolutionAction::Refuse { failure }),
                },
            }
        },
        Resolution::Settled => {
            proof { assert(false); }
            (Resolution::Settled, ResolutionAction::AskIdentity)
        },
    }
}

/// The failure of an RPC call that did not complete.
pub open spec fn unreachable_message(method: Seq<char>, detail: Seq<char>) -> Seq<char> {
    method + " could not be completed: "@ + spec_truncate(detail, 300)
}

/// The failure of an RPC call that did not complete: a network error naming the call,
/// with the detail shortened, the endpoint, and the reason `network-unreachable`.
pub fn unreachable_node(method: &str, url: &str, detail: &str) -> (res: Failure)
    ensures
        res.class == ErrorClass::NetworkError,
        res.message@ == unreachable_message(method@, detail@),
        context_view(res.context@) == seq![("rpc_url"@, url@), ("reason"@, "network-unreachable"@)],
{
    let mut message = owned(method);
    push_str(&mut message, " could not be completed: ");
    push_str(&mut message, truncate(detail, 300).as_str());
    let failure = Failure::new(ErrorClass::NetworkError, message)
        .with_context("rpc_url", owned(url))
        .with_context("reason", owned("network-unreachable"));
    proof { assert(context_view(failure.context@) =~= seq![("rpc_url"@, url@), ("reason"@, "network-unreachable"@)]); }
    failure
}

/// What a node's reply to an RPC call is.
#[derive(Debug, PartialEq, Eq)]
pub enum RpcReply {
    /// An HTTP status other than success, with the status line and the body.
    Status { status: String, body: String },
    /// A successful status whose body is not JSON, with the parser's account of why.
    NotJson { problem: String },
    /// A JSON-RPC error object, with its code and message.
    Refused { code: i64, message: String },
    /// A JSON-RPC result.
    Answered,
}

/// Accepts a node's reply to `method` at `url`, or names what was wrong with it: an
/// unsuccessful status as an unreachable node, a body that is not JSON as a malformed
/// response, and a JSON-RPC error as the node's refusal. Each is a network error.
pub fn check_reply(method: &str, url: &str, reply: &RpcReply) -> (res: Result<(), Failure>)
    ensures
        match reply {
            RpcReply::Status { status, body } => res matches Err(f) && f.class == ErrorClass::NetworkError
                && f.message@ == unreachable_message(method@, "the node answered "@ + status@ + ": "@ + spec_truncate(body@, 200))
                && context_view(f.context@) == seq![("rpc_url"@, url@), ("reason"@, "network-unreachable"@)],
            RpcReply::NotJson { problem } => res matches Err(f) && f.class == ErrorClass::NetworkError
                && f.message@ == "the node's answer to "@ + method@ + " was not JSON: "@ + problem@
                && context_view(f.context@) == seq![("rpc_url"@, url@), ("reason"@, "malformed-response"@)],
            RpcReply::Refused { code, message } => res matches Err(f) && f.class == ErrorClass::NetworkError
                && f.message@ == "the node refused "@ + method@ + " with error "@ + spec_signed_decimal(*code as int) + ": "@ + message@
                && context_view(f.context@) == seq![("rpc_url"@, url@), ("reason"@, "rpc-error"@)],
            RpcReply::Answered => res is Ok,
        },
{
    match reply {
        RpcReply::Status { status, body } => {
            let mut detail = owned("the node answered ");
            push_str(&mut detail, status.as_str());
            push_str(&mut detail, ": ");
            push_str(&mut detail, truncate(body.as_str(), 200).as_str());
            Err(unreachable_node(method, url, detail.as_str()))
        },
        RpcReply::NotJson { problem } => {
            let mut text = owned("the node's answer to ");
            push_str(&mut text, method);
            push_str(&mut text, " was not JSON: ");
            push_str(&mut text, problem.as_str());
            let failure = Failure::new(ErrorClass::NetworkError, text)
                .with_context("rpc_url", owned(url))
                .with_context("reason", owned("malformed-response"));
            proof { assert(context_view(failure.context@) =~= seq![("rpc_url"@, url@), ("reason"@, "malformed-response"@)]); }
            Err(failure)
        },
        RpcReply::Refused { code, message } => {
            let mut text = owned("the node refused ");
            push_str(&mut text, method);
            push_str(&mut text, " with error ");
            push_str(&mut text, signed_decimal_text(*code).as_str());
            push_str(&mut text, ": ");
            push_str(&mut text, message.as_str());
            let failure = Failure::new(ErrorClass::NetworkError, text)
                .with_context("rpc_url", owned(url))
                .with_context("reason", owned("rpc-error"));
            proof { assert(context_view(failure.context@) =~= seq![("rpc_url"@, url@), ("reason"@, "rpc-error"@)]); }
            Err(failure)
        },
        RpcReply::Answered => Ok(()),
    }
}

} // verus!
