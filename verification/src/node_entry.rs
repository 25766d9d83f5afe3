//! A ledger entry from the decomposed form a node sends.
//!
//! A node's `getLedgerEntries` answer does not carry a whole `LedgerEntry` in one
//! string: it sends the entry's data as base64 XDR, the ledger that last modified it as
//! a number, and an extension that it may leave out. The entry is put back together
//! here, and every field that is missing or cannot be decoded is refused as a network
//! failure that names it, rather than defaulted.
use vstd::prelude::*;

use crate::taxonomy::{ErrorClass, Failure, context_view};
use crate::text::{owned, push_str};

verus! {

/// The data of a ledger entry, as `stellar-xdr` models it.
#[verifier::external_type_specification]
#[verifier::external_body]
pub struct ExLedgerEntryData(stellar_xdr::curr::LedgerEntryData);

/// The extension of a ledger entry, as `stellar-xdr` models it.
#[verifier::external_type_specification]
#[verifier::external_body]
pub struct ExLedgerEntryExt(stellar_xdr::curr::LedgerEntryExt);

/// Why a text is not the base64 XDR of a ledger entry's data, or nothing when it is.
pub uninterp spec fn entry_data_refusal(encoded: Seq<char>) -> Option<Seq<char>>;

/// Why a text is not the base64 XDR of a ledger entry's extension, or nothing when it
/// is.
pub uninterp spec fn entry_ext_refusal(encoded: Seq<char>) -> Option<Seq<char>>;

/// Decodes a ledger entry's data from base64 XDR.
///
/// Calls `ReadXdr::from_xdr_base64` for `LedgerEntryData`, without limits. The contract
/// says whether it decoded and, when it did not, that the message is the error's
/// `Display` text, as named by [`entry_data_refusal`]; the decoded value is carried
/// through unread.
#[verifier::external_body]
fn decode_entry_data(encoded: &str) -> (res: Result<stellar_xdr::curr::LedgerEntryData, String>)
    ensures
        match res {
            Ok(_) => entry_data_refusal(encoded@) is None,
            Err(problem) => entry_data_refusal(encoded@) == Some(problem@),
        },
{
    <stellar_xdr::curr::LedgerEntryData as stellar_xdr::curr::ReadXdr>::from_xdr_base64(
        encoded,
        stellar_xdr::curr::Limits::none(),
    ).map_err(|problem| problem.to_string())
}

/// Decodes a ledger entry's extension from base64 XDR.
///
/// Calls `ReadXdr::from_xdr_base64` for `LedgerEntryExt`, without limits. The contract
/// says whether it decoded and, when it did not, that the message is the error's
/// `Display` text, as named by [`entry_ext_refusal`]; the decoded value is carried
/// through unread.
#[verifier::external_body]
fn decode_entry_ext(encoded: &str) -> (res: Result<stellar_xdr::curr::LedgerEntryExt, String>)
    ensures
        match res {
            Ok(_) => entry_ext_refusal(encoded@) is None,
            Err(problem) => entry_ext_refusal(encoded@) == Some(problem@),
        },
{
    <stellar_xdr::curr::LedgerEntryExt as stellar_xdr::curr::ReadXdr>::from_xdr_base64(
        encoded,
        stellar_xdr::curr::Limits::none(),
    ).map_err(|problem| problem.to_string())
}

/// The extension of an assembled entry.
#[derive(Debug)]
pub enum EntryExtension {
    /// The node sent none: the entry has the empty extension, `V0`.
    Empty,
    /// The extension the node sent, decoded.
    Sent(stellar_xdr::curr::LedgerEntryExt),
}

/// A ledger entry as the fields a node sends give it.
#[derive(Debug)]
pub struct NodeEntry {
    /// The ledger that last modified the entry.
    pub last_modified_ledger_seq: u32,
    /// The entry's data, decoded.
    pub data: stellar_xdr::curr::LedgerEntryData,
    /// Its extension.
    pub ext: EntryExtension,
}

/// The refusal of an entry without one of its fields.
pub open spec fn missing_field(field: Seq<char>) -> (Seq<char>, Seq<char>) {
    ("the node returned a ledger entry without "@ + field, "malformed-response"@)
}

/// Why the fields a node sent do not make a ledger entry, as a message and a reason, or
/// nothing when they do. The data is read first, then the ledger sequence, which must
/// fit in 32 bits, then the extension when there is one.
pub open spec fn spec_entry_refusal(
    xdr: Option<Seq<char>>,
    last_modified: Option<u64>,
    ext_xdr: Option<Seq<char>>,
) -> Option<(Seq<char>, Seq<char>)> {
    match xdr {
        None => Some(missing_field("the data XDR"@)),
        Some(data) => match entry_data_refusal(data) {
            Some(problem) => Some(("a ledger entry could not be decoded: "@ + problem, "undecodable-ledger-entry"@)),
            None => match last_modified {
                Some(sequence) if sequence <= u32::MAX => match ext_xdr {
                    Some(ext) => match entry_ext_refusal(ext) {
                        Some(problem) => Some((
                            "a ledger entry extension could not be decoded: "@ + problem,
                            "undecodable-ledger-entry"@,
                        )),
                        None => None,
                    },
                    None => None,
                },
                _ => Some(missing_field("the ledger sequence that last modified it"@)),
            },
        },
    }
}

/// A text's characters, where there is a text.
pub open spec fn text_of(text: Option<String>) -> Option<Seq<char>> {
    match text {
        Some(t) => Some(t@),
        None => None,
    }
}

/// A network failure with a message and the reason a caller can match on.
fn refusal(message: String, reason: &str) -> (res: Failure)
    ensures
        res.class == ErrorClass::NetworkError,
        res.message@ == message@,
        context_view(res.context@) == seq![("reason"@, reason@)],
{
    let res = Failure::new(ErrorClass::NetworkError, message).with_context("reason", owned(reason));
    proof { assert(context_view(res.context@) =~= seq![("reason"@, reason@)]); }
    res
}

/// Puts a ledger entry back together from the fields a node sends: the data's base64
/// XDR, the ledger sequence that last modified it, and the extension's base64 XDR when
/// the node sent one (an entry without one has the empty extension). The entry carries
/// the decoded data, the sequence as sent, and the decoded extension exactly when one
/// was sent. A missing field,
/// a sequence past 32 bits, or XDR that does not decode is refused as a network failure
/// that says which.
pub fn assemble_entry(
    xdr: Option<String>,
    last_modified: Option<u64>,
    ext_xdr: Option<String>,
) -> (res: Result<NodeEntry, Failure>)
    ensures
        match spec_entry_refusal(text_of(xdr), last_modified, text_of(ext_xdr)) {
            None => res matches Ok(entry)
                && last_modified == Some(entry.last_modified_ledger_seq as u64)
                && (entry.ext is Empty <==> ext_xdr is None),
            Some((message, reason)) => res matches Err(f) && f.class == ErrorClass::NetworkError
                && f.message@ == message && context_view(f.context@) == seq![("reason"@, reason)],
        },
{
    let encoded = match xdr {
        Some(encoded) => encoded,
        None => {
            let mut message = owned("the node returned a ledger entry without ");
            push_str(&mut message, "the data XDR");
            return Err(refusal(message, "malformed-response"));
        },
    };
    let data = match decode_entry_data(encoded.as_str()) {
        Ok(data) => data,
        Err(problem) => {
            let mut message = owned("a ledger entry could not be decoded: ");
            push_str(&mut message, problem.as_str());
            return Err(refusal(message, "undecodable-ledger-entry"));
        },
    };
    let sequence: u32 = match last_modified {
        Some(sequence) if sequence <= 0xffff_ffffu64 => sequence as u32,
        _ => {
            let mut message = owned("the node returned a ledger entry without ");
            push_str(&mut message, "the ledger sequence that last modified it");
            return Err(refusal(message, "malformed-response"));
        },
    };
    let ext = match ext_xdr {
        Some(encoded) => match decode_entry_ext(encoded.as_str()) {
            Ok(ext) => EntryExtension::Sent(ext),
            Err(problem) => {
                let mut message = owned("a ledger entry extension could not be decoded: ");
                push_str(&mut message, problem.as_str());
                return Err(refusal(message, "undecodable-ledger-entry"));
            },
        },
        None => EntryExtension::Empty,
    };
    Ok(NodeEntry { last_modified_ledger_seq: sequence, data, ext })
}

} // verus!
