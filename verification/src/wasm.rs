//! Reading a contract's interface from its WebAssembly.
//!
//! A Soroban contract publishes its interface in a custom section named
//! `contractspecv0`: a stream of XDR spec entries. The module is walked section by
//! section with bounds checked at every step, because the artifact is untrusted input:
//! a length that runs past the module, or one that never terminates, is refused rather
//! than followed. Types are named the way a profile writes them, so that an exposed
//! interface and a declared one can be compared by name.
use vstd::prelude::*;

use crate::interface::{ExposedInterface, ExposedMethod, ExposedParameter};
use crate::taxonomy::{ErrorClass, Failure};
use crate::text::{decimal_text, joined, owned, push_str, spec_decimal, texts};

verus! {

/// The custom section a contract publishes its interface in.
pub const SPEC_SECTION: &'static str = "contractspecv0";

/// Why a length field could not be read.
#[derive(Debug, Clone, Copy, PartialEq, Eq, Structural)]
pub enum LebError {
    /// The bytes ran out.
    Truncated,
    /// Five bytes were read and the value had not ended.
    Endless,
}

/// The weight of the `k`th seven-bit group.
pub open spec fn group_weight(k: nat) -> nat {
    if k == 0 { 1 } else if k == 1 { 128 } else if k == 2 { 16384 } else if k == 3 { 2097152 } else { 268435456 }
}

/// An unsigned LEB128 value read from its `k`th byte on, with `acc` gathered from the
/// bytes before: at most five bytes, kept to 32 bits.
pub open spec fn leb_from(bytes: Seq<u8>, cursor: int, k: nat, acc: nat) -> Result<(u32, int), LebError>
    decreases 5 - k,
{
    if k >= 5 {
        Err(LebError::Endless)
    } else if cursor + k >= bytes.len() {
        Err(LebError::Truncated)
    } else {
        let b = bytes[cursor + k];
        let total = acc + ((b % 128) as nat) * group_weight(k);
        if b < 128 {
            Ok(((total % 4294967296) as u32, cursor + k + 1))
        } else if k + 1 >= 5 {
            Err(LebError::Endless)
        } else {
            leb_from(bytes, cursor, k + 1, total)
        }
    }
}

/// An unsigned LEB128 `u32` at `cursor`, and the position after it.
pub open spec fn spec_leb128(bytes: Seq<u8>, cursor: int) -> Result<(u32, int), LebError> {
    leb_from(bytes, cursor, 0, 0)
}

/// The refusal of an unreadable length field.
pub open spec fn leb_message(e: LebError) -> Seq<char> {
    match e {
        LebError::Truncated => "a WebAssembly length field is truncated"@,
        LebError::Endless => "a WebAssembly length field does not terminate"@,
    }
}

/// Reads an unsigned LEB128 `u32` at `cursor`: its value and the position after it.
pub fn leb128(bytes: &[u8], cursor: usize) -> (res: Result<(u32, usize), Failure>)
    ensures
        match spec_leb128(bytes@, cursor as int) {
            Ok((value, next)) => res matches Ok((v, n)) && v == value && n == next,
            Err(e) => res matches Err(f) && f.class == ErrorClass::ContractResolutionError && f.message@ == leb_message(e),
        },
{
    let mut acc: u64 = 0;
    let mut weight: u64 = 1;
    let mut k: usize = 0;
    while k < 5
        invariant
            k <= 5,
            weight == group_weight(k as nat),
            acc < weight * 128,
            spec_leb128(bytes@, cursor as int) == leb_from(bytes@, cursor as int, k as nat, acc as nat),
        decreases 5 - k,
    {
        if cursor >= bytes.len() || k >= bytes.len() - cursor {
            return Err(Failure::new(ErrorClass::ContractResolutionError, owned("a WebAssembly length field is truncated")));
        }
        let b = bytes[cursor + k];
        let part = ((b % 128) as u64) * weight;
        let total = acc + part;
        if b < 128 {
            let value = (total % 4294967296) as u32;
            return Ok((value, cursor + k + 1));
        }
        if k + 1 >= 5 {
            return Err(Failure::new(ErrorClass::ContractResolutionError, owned("a WebAssembly length field does not terminate")));
        }
        acc = total;
        weight = weight * 128;
        k = k + 1;
    }
    Err(Failure::new(ErrorClass::ContractResolutionError, owned("a WebAssembly length field does not terminate")))
}

/// Why a custom section could not be read.
#[derive(Debug, Clone, Copy, PartialEq, Eq, Structural)]
pub enum SectionError {
    /// The artifact does not begin with the WebAssembly magic bytes.
    NotWasm,
    /// A length field could not be read.
    Length(LebError),
    /// A section runs past the end of the module.
    PastEnd,
    /// A custom section's name runs past the end of the section.
    NamePastEnd,
    /// No custom section has the name.
    Missing,
}

/// A length field read successfully ends after it starts.
pub proof fn lemma_leb_advances(bytes: Seq<u8>, cursor: int, k: nat, acc: nat)
    ensures
        leb_from(bytes, cursor, k, acc) matches Ok((v, n)) ==> n >= cursor + k + 1,
    decreases 5 - k,
{
    if k < 5 && cursor + k < bytes.len() && bytes[cursor + k] >= 128 && k + 1 < 5 {
        lemma_leb_advances(bytes, cursor, k + 1, acc + ((bytes[cursor + k] % 128) as nat) * group_weight(k));
    }
}

/// What the section at `cursor` is: `(true, start, end)` when it is the custom section
/// named `name`, whose payload is `start..end`; `(false, end, end)` when it is another
/// section, which ends at `end`.
pub open spec fn section_at(wasm: Seq<u8>, cursor: int, name: Seq<u8>) -> Result<(bool, int, int), SectionError> {
    let id = wasm[cursor];
    match spec_leb128(wasm, cursor + 1) {
        Err(e) => Err(SectionError::Length(e)),
        Ok((size, next)) => {
            let end = next + size;
            if end > wasm.len() {
                Err(SectionError::PastEnd)
            } else if id == 0 {
                match spec_leb128(wasm, next) {
                    Err(e) => Err(SectionError::Length(e)),
                    Ok((name_length, payload)) => {
                        let name_end = payload + name_length;
                        if name_end > end {
                            Err(SectionError::NamePastEnd)
                        } else if wasm.subrange(payload, name_end) == name {
                            Ok((true, name_end, end))
                        } else {
                            Ok((false, end, end))
                        }
                    },
                }
            } else {
                Ok((false, end, end))
            }
        },
    }
}

/// The payload of the first custom section named `name` among the sections from
/// `cursor` on, as a range of `wasm`.
pub open spec fn sections_from(wasm: Seq<u8>, cursor: int, name: Seq<u8>) -> Result<(int, int), SectionError>
    decreases wasm.len() - cursor,
{
    if cursor < 0 || cursor >= wasm.len() {
        Err(SectionError::Missing)
    } else {
        match section_at(wasm, cursor, name) {
            Err(e) => Err(e),
            Ok((found, a, b)) => if found {
                Ok((a, b))
            } else if a > cursor {
                sections_from(wasm, a, name)
            } else {
                Err(SectionError::Missing)
            },
        }
    }
}

/// The payload of the first custom section named `name` in a WebAssembly module.
pub open spec fn spec_custom_section(wasm: Seq<u8>, name: Seq<u8>) -> Result<(int, int), SectionError> {
    if wasm.len() < 8 || wasm.subrange(0, 4) != seq![0u8, 0x61u8, 0x73u8, 0x6du8] {
        Err(SectionError::NotWasm)
    } else {
        sections_from(wasm, 8, name)
    }
}

/// The refusal a section error is reported with.
pub open spec fn section_message(e: SectionError, name: Seq<char>) -> Seq<char> {
    match e {
        SectionError::NotWasm => "the artifact is not a WebAssembly module: it does not begin with the magic bytes"@,
        SectionError::Length(l) => leb_message(l),
        SectionError::PastEnd => "a WebAssembly section runs past the end of the module"@,
        SectionError::NamePastEnd => "a custom section's name runs past the end of the section"@,
        SectionError::Missing => "the artifact publishes no `"@ + name
            + "` section, so its interface cannot be read; a contract built without the contract spec embedded cannot be inspected"@,
    }
}

/// Reads the section at `cursor`.
fn section_step(wasm: &[u8], cursor: usize, name: &Vec<u8>) -> (res: Result<(bool, usize, usize), Failure>)
    requires
        cursor < wasm@.len(),
    ensures
        match section_at(wasm@, cursor as int, name@) {
            Ok((found, a, b)) => res matches Ok((f, x, y)) && f == found && x == a && y == b
                && x > cursor && x <= y && y <= wasm@.len(),
            Err(e) => res matches Err(f) && f.class == ErrorClass::ContractResolutionError && f.message@ == section_message(e, ""@)
                && e != SectionError::Missing,
        },
{
    let id = wasm[cursor];
    proof { lemma_leb_advances(wasm@, cursor as int + 1, 0, 0); }
    let (size, next) = match leb128(wasm, cursor + 1) {
        Ok(pair) => pair,
        Err(f) => return Err(f),
    };
    if next > wasm.len() || (size as usize) > wasm.len() - next {
        return Err(Failure::new(ErrorClass::ContractResolutionError,
            owned("a WebAssembly section runs past the end of the module")));
    }
    let end = next + size as usize;
    if id != 0 {
        return Ok((false, end, end));
    }
    proof { lemma_leb_advances(wasm@, next as int, 0, 0); }
    let (name_length, payload) = match leb128(wasm, next) {
        Ok(pair) => pair,
        Err(f) => return Err(f),
    };
    if payload > end || (name_length as usize) > end - payload {
        return Err(Failure::new(ErrorClass::ContractResolutionError,
            owned("a custom section's name runs past the end of the section")));
    }
    let name_end = payload + name_length as usize;
    let mut same = name_end - payload == name.len();
    let mut j: usize = 0;
    while same && j < name.len()
        invariant
            payload <= name_end <= wasm@.len(),
            same ==> name_end - payload == name@.len(),
            j <= name@.len(),
            same ==> forall|t: int| 0 <= t < j ==> wasm@[payload + t] == name@[t],
            !same ==> wasm@.subrange(payload as int, name_end as int) != name@,
        decreases name@.len() - j,
    {
        if wasm[payload + j] != name[j] {
            same = false;
            proof { assert(wasm@.subrange(payload as int, name_end as int)[j as int] == wasm@[payload + j]); }
        }
        j = j + 1;
    }
    proof {
        if same {
            assert(wasm@.subrange(payload as int, name_end as int) =~= name@);
        }
    }
    if same {
        Ok((true, name_end, end))
    } else {
        Ok((false, end, end))
    }
}

/// The payload of the first custom section named `name` in a WebAssembly module;
/// refused when the artifact is not WebAssembly, a length field is unreadable, a section
/// or a section's name runs past its bounds, or no such section exists.
pub fn custom_section(wasm: &[u8], name: &str) -> (res: Result<Vec<u8>, Failure>)
    ensures
        match spec_custom_section(wasm@, vstd::utf8::encode_utf8(name@)) {
            Ok((start, end)) => res matches Ok(bytes) && bytes@ == wasm@.subrange(start, end),
            Err(e) => res matches Err(f) && f.class == ErrorClass::ContractResolutionError
                && f.message@ == section_message(e, name@),
        },
{
    let name_bytes = vstd::slice::slice_to_vec(name.as_bytes());
    let ghost target = vstd::utf8::encode_utf8(name@);
    if wasm.len() < 8 || !(wasm[0] == 0 && wasm[1] == 0x61 && wasm[2] == 0x73 && wasm[3] == 0x6d) {
        proof {
            if wasm@.len() >= 8 {
                assert(wasm@.subrange(0, 4) != seq![0u8, 0x61u8, 0x73u8, 0x6du8]) by {
                    if wasm@.subrange(0, 4) == seq![0u8, 0x61u8, 0x73u8, 0x6du8] {
                        assert(wasm@.subrange(0, 4)[0] == wasm@[0]);
                        assert(wasm@.subrange(0, 4)[1] == wasm@[1]);
                        assert(wasm@.subrange(0, 4)[2] == wasm@[2]);
                        assert(wasm@.subrange(0, 4)[3] == wasm@[3]);
                    }
                }
            }
        }
        return Err(Failure::new(ErrorClass::ContractResolutionError,
            owned("the artifact is not a WebAssembly module: it does not begin with the magic bytes")));
    }
    proof { assert(wasm@.subrange(0, 4) =~= seq![0u8, 0x61u8, 0x73u8, 0x6du8]); }
    let mut cursor: usize = 8;
    while cursor < wasm.len()
        invariant
            name_bytes@ == target,
            target == vstd::utf8::encode_utf8(name@),
            8 <= cursor,
            spec_custom_section(wasm@, target) == sections_from(wasm@, cursor as int, target),
        decreases wasm@.len() - cursor,
    {
        let step = section_step(wasm, cursor, &name_bytes);
        proof {
            assert(sections_from(wasm@, cursor as int, target) == match section_at(wasm@, cursor as int, target) {
                Err(e) => Err(e),
                Ok((found, a, b)) => if found {
                    Ok((a, b))
                } else if a > cursor {
                    sections_from(wasm@, a, target)
                } else {
                    Err(SectionError::Missing)
                },
            });
            match section_at(wasm@, cursor as int, target) {
                Err(e) => { assert(section_message(e, ""@) == section_message(e, name@)); },
                Ok(_) => {},
            }
        }
        let (found, a, b) = match step {
            Ok(step) => step,
            Err(f) => return Err(f),
        };
        if found {
            let mut out: Vec<u8> = Vec::new();
            let mut p: usize = a;
            while p < b
                invariant
                    a <= p <= b <= wasm@.len(),
                    out@ == wasm@.subrange(a as int, p as int),
                decreases b - p,
            {
                out.push(wasm[p]);
                proof { assert(out@ =~= wasm@.subrange(a as int, p as int + 1)); }
                p = p + 1;
            }
            return Ok(out);
        }
        cursor = a;
    }
    let mut message = owned("the artifact publishes no `");
    push_str(&mut message, name);
    push_str(&mut message, "` section, so its interface cannot be read; a contract built without the contract spec embedded cannot be inspected");
    Err(Failure::new(ErrorClass::ContractResolutionError, message))
}

/// A type as a contract's spec section describes it.
#[derive(Debug, PartialEq)]
pub enum SpecType {
    Val,
    Bool,
    Void,
    Error,
    U32,
    I32,
    U64,
    I64,
    Timepoint,
    Duration,
    U128,
    I128,
    U256,
    I256,
    Bytes,
    String,
    Symbol,
    Address,
    MuxedAddress,
    Option(Box<SpecType>),
    Result { ok: Box<SpecType>, error: Box<SpecType> },
    Vec(Box<SpecType>),
    Mapping { key: Box<SpecType>, value: Box<SpecType> },
    Tuple(Vec<SpecType>),
    BytesN(u32),
    /// A type the contract defines, by name.
    Udt(String),
}

/// What `str::to_lowercase` gives for a text.
pub uninterp spec fn lowercase_text(text: Seq<char>) -> Seq<char>;

/// The text in lower case.
///
/// Calls `str::to_lowercase`, whose result depends on the text alone; it is named
/// rather than described, since Unicode case mapping is not a few lines.
#[verifier::external_body]
fn lowercase(text: &str) -> (res: String)
    ensures
        res@ == lowercase_text(text@),
{
    text.to_lowercase()
}

/// The name a profile writes a spec type with.
pub open spec fn spec_canonical(t: SpecType) -> Seq<char>
    decreases t,
{
    match t {
        SpecType::Val => "val"@,
        SpecType::Bool => "bool"@,
        SpecType::Void => "void"@,
        SpecType::Error => "error"@,
        SpecType::U32 => "u32"@,
        SpecType::I32 => "i32"@,
        SpecType::U64 => "u64"@,
        SpecType::I64 => "i64"@,
        SpecType::Timepoint => "timepoint"@,
        SpecType::Duration => "duration"@,
        SpecType::U128 => "u128"@,
        SpecType::I128 => "i128"@,
        SpecType::U256 => "u256"@,
        SpecType::I256 => "i256"@,
        SpecType::Bytes => "bytes"@,
        SpecType::String => "string"@,
        SpecType::Symbol => "symbol"@,
        SpecType::Address => "address"@,
        SpecType::MuxedAddress => "muxed_address"@,
        SpecType::Option(inner) => "option<"@ + spec_canonical(*inner) + ">"@,
        SpecType::Result { ok, error } => "result<"@ + spec_canonical(*ok) + ","@ + spec_canonical(*error) + ">"@,
        SpecType::Vec(element) => "vec<"@ + spec_canonical(*element) + ">"@,
        SpecType::Mapping { key, value } => "map<"@ + spec_canonical(*key) + ","@ + spec_canonical(*value) + ">"@,
        SpecType::Tuple(elements) => "tuple<"@ + joined(spec_canonicals(elements@), ","@) + ">"@,
        SpecType::BytesN(n) => "bytes_n<"@ + spec_decimal(n as nat) + ">"@,
        SpecType::Udt(name) => lowercase_text(name@),
    }
}

/// The names of a list of spec types.
pub open spec fn spec_canonicals(ts: Seq<SpecType>) -> Seq<Seq<char>>
    decreases ts,
{
    if ts.len() == 0 {
        seq![]
    } else {
        spec_canonicals(ts.drop_last()).push(spec_canonical(ts.last()))
    }
}

/// Names a spec type the way a profile writes it.
pub fn canonical(t: &SpecType) -> (res: String)
    ensures
        res@ == spec_canonical(*t),
    decreases t,
{
    match t {
        SpecType::Val => owned("val"),
        SpecType::Bool => owned("bool"),
        SpecType::Void => owned("void"),
        SpecType::Error => owned("error"),
        SpecType::U32 => owned("u32"),
        SpecType::I32 => owned("i32"),
        SpecType::U64 => owned("u64"),
        SpecType::I64 => owned("i64"),
        SpecType::Timepoint => owned("timepoint"),
        SpecType::Duration => owned("duration"),
        SpecType::U128 => owned("u128"),
        SpecType::I128 => owned("i128"),
        SpecType::U256 => owned("u256"),
        SpecType::I256 => owned("i256"),
        SpecType::Bytes => owned("bytes"),
        SpecType::String => owned("string"),
        SpecType::Symbol => owned("symbol"),
        SpecType::Address => owned("address"),
        SpecType::MuxedAddress => owned("muxed_address"),
        SpecType::Option(inner) => {
            let mut out = owned("option<");
            push_str(&mut out, canonical(inner).as_str());
            push_str(&mut out, ">");
            out
        },
        SpecType::Result { ok, error } => {
            let mut out = owned("result<");
            push_str(&mut out, canonical(ok).as_str());
            push_str(&mut out, ",");
            push_str(&mut out, canonical(error).as_str());
            push_str(&mut out, ">");
            out
        },
        SpecType::Vec(element) => {
            let mut out = owned("vec<");
            push_str(&mut out, canonical(element).as_str());
            push_str(&mut out, ">");
            out
        },
        SpecType::Mapping { key, value } => {
            let mut out = owned("map<");
            push_str(&mut out, canonical(key).as_str());
            push_str(&mut out, ",");
            push_str(&mut out, canonical(value).as_str());
            push_str(&mut out, ">");
            out
        },
        SpecType::Tuple(elements) => {
            let parts = canonicals(elements);
            let mut out = owned("tuple<");
            push_str(&mut out, crate::text::join(&parts, ",").as_str());
            push_str(&mut out, ">");
            out
        },
        SpecType::BytesN(n) => {
            let mut out = owned("bytes_n<");
            push_str(&mut out, decimal_text(*n as u64).as_str());
            push_str(&mut out, ">");
            out
        },
        SpecType::Udt(name) => lowercase(name.as_str()),
    }
}

/// Names every spec type of a list.
fn canonicals(ts: &Vec<SpecType>) -> (res: Vec<String>)
    ensures
        texts(res@) == spec_canonicals(ts@),
    decreases ts@,
{
    let mut out: Vec<String> = Vec::new();
    let mut i: usize = 0;
    while i < ts.len()
        invariant
            i <= ts@.len(),
            texts(out@) == spec_canonicals(ts@.take(i as int)),
        decreases ts@.len() - i,
    {
        proof { assert(decreases_to!(ts@ => ts@[i as int])); }
        let name = canonical(&ts[i]);
        let ghost before = out@;
        out.push(name);
        proof {
            assert(ts@.take(i as int + 1).drop_last() =~= ts@.take(i as int));
            assert(texts(out@) =~= texts(before).push(spec_canonical(ts@[i as int])));
        }
        i = i + 1;
    }
    proof { assert(ts@.take(i as int) =~= ts@); }
    out
}

/// One function a spec section declares.
#[derive(Debug, PartialEq)]
pub struct SpecFunction {
    /// The function's name.
    pub name: String,
    /// Its inputs: name and type, in order.
    pub inputs: Vec<(String, SpecType)>,
    /// Its outputs, in order.
    pub outputs: Vec<SpecType>,
}

/// One entry of a spec section.
#[derive(Debug, PartialEq)]
pub enum SpecEntry {
    /// A function.
    Function(SpecFunction),
    /// Any other entry: a type definition or an event, which an interface does not list.
    Other,
}

/// A parameter as values: its name and type name.
pub open spec fn parameter_view(p: ExposedParameter) -> (Option<Seq<char>>, Seq<char>) {
    (match p.name { Some(n) => Some(n@), None => None }, p.type_text@)
}

/// A method as values.
pub open spec fn method_view(m: ExposedMethod) -> (Seq<char>, Seq<(Option<Seq<char>>, Seq<char>)>, Option<Seq<char>>, bool) {
    (m.name@, m.parameters@.map_values(|p: ExposedParameter| parameter_view(p)),
        match m.return_type { Some(r) => Some(r@), None => None }, m.readonly)
}

/// The method a spec function exposes: its inputs named and typed, its first output
/// as the return type unless that is `void`, and not read-only.
pub open spec fn function_method(f: SpecFunction) -> (Seq<char>, Seq<(Option<Seq<char>>, Seq<char>)>, Option<Seq<char>>, bool) {
    (f.name@,
        f.inputs@.map_values(|i: (String, SpecType)| (Some(i.0@), spec_canonical(i.1))),
        if f.outputs@.len() > 0 && spec_canonical(f.outputs@[0]) != "void"@ { Some(spec_canonical(f.outputs@[0])) } else { None },
        false)
}

/// The methods the functions of a spec section expose, in order.
pub open spec fn entries_methods(entries: Seq<SpecEntry>) -> Seq<(Seq<char>, Seq<(Option<Seq<char>>, Seq<char>)>, Option<Seq<char>>, bool)>
    decreases entries.len(),
{
    if entries.len() == 0 {
        seq![]
    } else {
        match entries.last() {
            SpecEntry::Function(f) => entries_methods(entries.drop_last()).push(function_method(f)),
            SpecEntry::Other => entries_methods(entries.drop_last()),
        }
    }
}

fn method_of(f: &SpecFunction) -> (res: ExposedMethod)
    ensures
        method_view(res) == function_method(*f),
{
    let mut parameters: Vec<ExposedParameter> = Vec::new();
    let mut i: usize = 0;
    while i < f.inputs.len()
        invariant
            i <= f.inputs@.len(),
            parameters@.map_values(|p: ExposedParameter| parameter_view(p))
                == f.inputs@.take(i as int).map_values(|x: (String, SpecType)| (Some(x.0@), spec_canonical(x.1))),
        decreases f.inputs@.len() - i,
    {
        let p = ExposedParameter { name: Some(f.inputs[i].0.clone()), type_text: canonical(&f.inputs[i].1) };
        let ghost before = parameters@;
        parameters.push(p);
        proof {
            assert(parameters@.map_values(|p: ExposedParameter| parameter_view(p))
                =~= before.map_values(|p: ExposedParameter| parameter_view(p)).push(parameter_view(p)));
            assert(f.inputs@.take(i as int + 1).map_values(|x: (String, SpecType)| (Some(x.0@), spec_canonical(x.1)))
                =~= f.inputs@.take(i as int).map_values(|x: (String, SpecType)| (Some(x.0@), spec_canonical(x.1)))
                .push((Some(f.inputs@[i as int].0@), spec_canonical(f.inputs@[i as int].1))));
        }
        i = i + 1;
    }
    proof { assert(f.inputs@.take(i as int) =~= f.inputs@); }
    let return_type = if f.outputs.len() > 0 {
        let name = canonical(&f.outputs[0]);
        if crate::text::str_eq(name.as_str(), "void") { None } else { Some(name) }
    } else {
        None
    };
    ExposedMethod { name: f.name.clone(), parameters, return_type, readonly: false }
}

impl ExposedInterface {
    /// The interface the entries of a spec section declare: one method per function
    /// entry, in order, from `source`.
    pub fn from_entries(entries: &Vec<SpecEntry>, source: String) -> (res: Self)
        ensures
            res.methods@.map_values(|m: ExposedMethod| method_view(m)) == entries_methods(entries@),
            res.source@ == source@,
    {
        let mut methods: Vec<ExposedMethod> = Vec::new();
        let mut i: usize = 0;
        while i < entries.len()
            invariant
                i <= entries@.len(),
                methods@.map_values(|m: ExposedMethod| method_view(m)) == entries_methods(entries@.take(i as int)),
            decreases entries@.len() - i,
        {
            proof { assert(entries@.take(i as int + 1).drop_last() =~= entries@.take(i as int)); }
            match &entries[i] {
                SpecEntry::Function(f) => {
                    let m = method_of(f);
                    let ghost before = methods@;
                    methods.push(m);
                    proof {
                        assert(methods@.map_values(|m: ExposedMethod| method_view(m))
                            =~= before.map_values(|m: ExposedMethod| method_view(m)).push(method_view(m)));
                    }
                },
                SpecEntry::Other => {},
            }
            i = i + 1;
        }
        proof { assert(entries@.take(i as int) =~= entries@); }
        ExposedInterface { methods, source }
    }

    /// The interface a decoded spec section declares, from `source`; a section that could
    /// not be decoded is refused as a whole, with the decoder's `problem`, rather than
    /// read as a partial interface that would report a method as missing when it merely
    /// was not read.
    pub fn from_decoded(decoded: Result<Vec<SpecEntry>, String>, source: String) -> (res: Result<Self, Failure>)
        ensures
            match decoded {
                Ok(entries) => res matches Ok(interface)
                    && interface.methods@.map_values(|m: ExposedMethod| method_view(m)) == entries_methods(entries@)
                    && interface.source@ == source@,
                Err(problem) => res matches Err(f)
                    && f.class == ErrorClass::ContractResolutionError
                    && f.message@ == "the contract spec section could not be decoded: "@ + problem@
                    && f.context@.len() == 0,
            },
    {
        match decoded {
            Ok(entries) => Ok(ExposedInterface::from_entries(&entries, source)),
            Err(problem) => {
                let mut message = owned("the contract spec section could not be decoded: ");
                push_str(&mut message, problem.as_str());
                Err(Failure::new(ErrorClass::ContractResolutionError, message))
            },
        }
    }
}

} // verus!
