use estamora::fixture::{Defect, declared, is_auxiliary, standard_surface, token_methods};
use estamora::interface::{
    CONSTRUCTOR, DeclaredMethod, ExposedInterface, ExposedMethod, ExposedParameter, check_registrable,
    constructor_needing_arguments,
};
use estamora::taxonomy::{Blame, ErrorClass};
use estamora::wasm::{SpecEntry, SpecFunction, SpecType, canonical, custom_section, leb128};

fn interface(methods: Vec<ExposedMethod>) -> ExposedInterface {
    ExposedInterface { methods, source: "a test".to_owned() }
}

fn method(name: &str, parameters: &[(&str, &str)]) -> ExposedMethod {
    ExposedMethod {
        name: name.to_owned(),
        parameters: parameters
            .iter()
            .map(|(name, text)| ExposedParameter { name: Some((*name).to_owned()), type_text: (*text).to_owned() })
            .collect(),
        return_type: None,
        readonly: false,
    }
}

#[test]
fn an_artifact_with_no_constructor_needs_nothing() {
    let declared = interface(vec![method("transfer", &[("from", "address")])]);
    assert_eq!(constructor_needing_arguments(&declared), None);
}

#[test]
fn an_artifact_whose_constructor_takes_nothing_is_registrable() {
    let declared = interface(vec![method(CONSTRUCTOR, &[])]);
    assert_eq!(constructor_needing_arguments(&declared), None);
}

#[test]
fn a_constructor_that_takes_arguments_is_reported_with_them() {
    let declared = interface(vec![method(CONSTRUCTOR, &[("admin", "address"), ("decimal", "u32")])]);
    assert_eq!(constructor_needing_arguments(&declared).as_deref(), Some("admin: address, decimal: u32"));
}

#[test]
fn a_constructor_is_detected_however_many_methods_surround_it() {
    let declared = interface(vec![
        method("decimals", &[]),
        method(CONSTRUCTOR, &[("admin", "address")]),
        method("transfer", &[("from", "address")]),
    ]);
    assert!(constructor_needing_arguments(&declared).is_some(), "a constructor is not made registrable by having neighbours");
}

#[test]
fn only_the_fixture_that_omits_decimals_declares_the_absence() {
    assert!(declared(Defect::Conforming).iter().any(|m| m.name == "decimals"));
    assert!(declared(Defect::MissingDecimals).iter().all(|m| m.name != "decimals"));
    for defect in Defect::all() {
        if defect != Defect::MissingDecimals {
            assert!(declared(defect).iter().any(|m| m.name == "decimals"), "{defect:?} publishes decimals and must say so");
        }
    }
}

#[test]
fn every_fixture_declares_the_whole_standard_so_its_defect_is_its_only_difference() {
    for defect in Defect::all() {
        let names: Vec<&str> = declared(defect).iter().map(|m| m.name).collect();
        for method in standard_surface() {
            if method.name == "decimals" && !defect.exposes_decimals() {
                continue;
            }
            assert!(names.contains(&method.name), "{defect:?} does not publish {}", method.name);
        }
    }
}

#[test]
fn a_declared_parameter_matches_the_signature_the_contract_implements() {
    let all = declared(Defect::Conforming);
    let transfer = all.iter().find(|method| method.name == "transfer").expect("the conforming fixture publishes transfer");
    assert_eq!(transfer.parameters, ["address", "muxed_address", "i128"]);
    let approve = all.iter().find(|method| method.name == "approve").expect("the conforming fixture publishes approve");
    assert_eq!(approve.parameters.len(), 4);
}

#[test]
fn the_standard_s_methods_are_reported_without_the_auxiliary_entry_points() {
    for defect in Defect::all() {
        let methods = token_methods(defect);
        assert!(methods.iter().all(|method| !is_auxiliary(method.name)), "{defect:?} reported an auxiliary entry point");
        assert_eq!(methods.len(), if defect.exposes_decimals() { 10 } else { 9 }, "{defect:?} reports the wrong number");
    }
}

#[test]
fn a_fixture_that_behaves_correctly_admits_the_entry_points_it_was_given_to_be_testable() {
    assert!(declared(Defect::Conforming).iter().any(|method| method.name == "always_refuses"));
    assert!(declared(Defect::DoubleEmits).iter().all(|method| method.name != "always_refuses"));
}

#[test]
fn every_defect_is_selectable_by_a_name_that_round_trips() {
    for defect in Defect::all() {
        assert_eq!(Defect::parse(defect.as_str()), Some(defect));
        assert!(!defect.violates().is_empty());
    }
}

#[test]
fn the_defect_names_are_distinct() {
    let mut names: Vec<&str> = Defect::all().iter().map(|defect| defect.as_str()).collect();
    names.sort_unstable();
    let count = names.len();
    names.dedup();
    assert_eq!(names.len(), count, "two defects share a name");
}

#[test]
fn an_unknown_defect_name_is_refused_rather_than_defaulted() {
    assert_eq!(Defect::parse("no-such-defect"), None);
}

#[test]
fn only_the_defect_that_removes_decimals_reports_itself_as_doing_so() {
    for defect in Defect::all() {
        assert_eq!(defect.exposes_decimals(), defect != Defect::MissingDecimals, "{} misreports its interface", defect.as_str());
    }
}

#[test]
fn a_declared_interface_carries_the_names_a_profile_compares() {
    let interface = ExposedInterface::declared(
        &vec![
            DeclaredMethod { name: "balance", parameters: vec!["address"], return_type: Some("i128"), readonly: true },
            DeclaredMethod {
                name: "transfer",
                parameters: vec!["address", "address", "i128"],
                return_type: None,
                readonly: false,
            },
        ],
        "the fixture".to_owned(),
    );
    assert!(interface.declares("balance"));
    assert!(interface.declares("transfer"));
    assert!(!interface.declares("decimals"));
    assert_eq!(interface.method("transfer").unwrap().parameters.len(), 3);
}

#[test]
fn composed_types_read_the_way_a_profile_writes_them() {
    assert_eq!(canonical(&SpecType::Option(Box::new(SpecType::U64))), "option<u64>");
    assert_eq!(canonical(&SpecType::Vec(Box::new(SpecType::Address))), "vec<address>");
    assert_eq!(canonical(&SpecType::BytesN(32)), "bytes_n<32>");
    assert_eq!(canonical(&SpecType::I128), "i128");
    assert_eq!(
        canonical(&SpecType::Mapping { key: Box::new(SpecType::Symbol), value: Box::new(SpecType::I128) }),
        "map<symbol,i128>"
    );
    assert_eq!(canonical(&SpecType::Tuple(vec![SpecType::U32, SpecType::Bool])), "tuple<u32,bool>");
    assert_eq!(
        canonical(&SpecType::Result { ok: Box::new(SpecType::Void), error: Box::new(SpecType::Error) }),
        "result<void,error>"
    );
    assert_eq!(canonical(&SpecType::Udt("TokenMetadata".to_owned())), "tokenmetadata");
}

#[test]
fn an_artifact_that_is_not_wasm_is_named_as_a_resolution_failure() {
    let problem = custom_section(b"not wasm at all", "contractspecv0").unwrap_err();
    assert_eq!(problem.class(), ErrorClass::ContractResolutionError);
    assert!(problem.message().contains("magic bytes"), "{}", problem.message());
    assert_eq!(problem.blame(), Blame::Environment);
}

#[test]
fn a_module_without_a_spec_section_says_so_rather_than_reporting_a_wrong_interface() {
    let wasm = b"\0asm\x01\0\0\0";
    let problem = custom_section(wasm, "contractspecv0").unwrap_err();
    assert!(problem.message().contains("contractspecv0"), "{}", problem.message());
}

#[test]
fn a_section_that_runs_past_the_module_is_refused() {
    let wasm = b"\0asm\x01\0\0\0\x00\x80\x20";
    let problem = custom_section(wasm, "contractspecv0").unwrap_err();
    assert!(problem.message().contains("past the end"), "{}", problem.message());
}

#[test]
fn an_leb128_that_does_not_terminate_is_refused_rather_than_looping() {
    let endless = [0x80u8; 8];
    assert!(leb128(&endless, 0).is_err());
    assert!(leb128(&[], 0).is_err());
    assert_eq!(leb128(&[0x7f], 0).unwrap(), (127, 1));
    assert_eq!(leb128(&[0x80, 0x01], 0).unwrap(), (128, 2));
}

#[test]
fn a_custom_section_is_found_among_others_and_its_payload_returned() {
    let mut wasm = b"\0asm\x01\0\0\0".to_vec();
    // A type section, then a custom section named "other", then the spec section.
    wasm.extend_from_slice(&[0x01, 0x02, 0xaa, 0xbb]);
    wasm.extend_from_slice(&[0x00, 0x07, 0x05]);
    wasm.extend_from_slice(b"other");
    wasm.push(0x01);
    let name = b"contractspecv0";
    wasm.extend_from_slice(&[0x00, (1 + name.len() + 3) as u8, name.len() as u8]);
    wasm.extend_from_slice(name);
    wasm.extend_from_slice(&[1, 2, 3]);
    assert_eq!(custom_section(&wasm, "contractspecv0").unwrap(), vec![1, 2, 3]);
    assert_eq!(custom_section(&wasm, "other").unwrap(), vec![1]);
}

#[test]
fn a_custom_section_name_is_matched_by_its_utf8_bytes() {
    let mut wasm = b"\0asm\x01\0\0\0".to_vec();
    let name = "spéc".as_bytes();
    wasm.extend_from_slice(&[0x00, (1 + name.len() + 2) as u8, name.len() as u8]);
    wasm.extend_from_slice(name);
    wasm.extend_from_slice(&[9, 8]);
    assert_eq!(custom_section(&wasm, "spéc").unwrap(), vec![9, 8]);
    assert!(custom_section(&wasm, "spec").is_err());
}

#[test]
fn a_five_byte_length_keeps_its_low_thirty_two_bits() {
    assert_eq!(leb128(&[0xff, 0xff, 0xff, 0xff, 0x0f], 0).unwrap(), (u32::MAX, 5));
    assert_eq!(leb128(&[0x80, 0x80, 0x80, 0x80, 0x7f], 0).unwrap(), (0xf000_0000, 5));
    assert!(leb128(&[0x80, 0x80, 0x80, 0x80, 0x80, 0x01], 0).is_err());
}

#[test]
fn the_functions_of_a_spec_section_become_the_interface() {
    let entries = vec![
        SpecEntry::Other,
        SpecEntry::Function(SpecFunction {
            name: "balance".to_owned(),
            inputs: vec![("id".to_owned(), SpecType::Address)],
            outputs: vec![SpecType::I128],
        }),
        SpecEntry::Function(SpecFunction {
            name: "transfer".to_owned(),
            inputs: vec![("from".to_owned(), SpecType::Address), ("amount".to_owned(), SpecType::I128)],
            outputs: vec![SpecType::Void],
        }),
    ];
    let interface = ExposedInterface::from_entries(&entries, "an artifact".to_owned());
    assert_eq!(interface.methods.len(), 2);
    let balance = interface.method("balance").unwrap();
    assert_eq!(balance.return_type.as_deref(), Some("i128"));
    assert_eq!(balance.parameters[0].name.as_deref(), Some("id"));
    assert_eq!(balance.parameters[0].type_text, "address");
    let transfer = interface.method("transfer").unwrap();
    assert_eq!(transfer.return_type, None, "a void return is no return");
    assert!(!transfer.readonly);
}

#[test]
fn a_decoded_section_becomes_the_interface_and_an_undecodable_one_is_refused_whole() {
    let entries = vec![SpecEntry::Function(SpecFunction {
        name: "decimals".to_owned(),
        inputs: vec![],
        outputs: vec![SpecType::U32],
    })];
    let interface = ExposedInterface::from_decoded(Ok(entries), "token.wasm".to_owned()).unwrap();
    assert_eq!(interface.source, "token.wasm");
    assert_eq!(interface.methods.len(), 1);
    assert_eq!(interface.method("decimals").unwrap().return_type.as_deref(), Some("u32"));

    let failure = ExposedInterface::from_decoded(Err("xdr value invalid".to_owned()), "token.wasm".to_owned())
        .unwrap_err();
    assert_eq!(failure.class(), ErrorClass::ContractResolutionError);
    assert_eq!(failure.message(), "the contract spec section could not be decoded: xdr value invalid");
}

#[test]
fn an_artifact_with_a_constructor_that_needs_arguments_is_refused_rather_than_crashing() {
    let declared = interface(vec![method(CONSTRUCTOR, &[("admin", "address")])]);
    let failure = check_registrable(&declared, "token.wasm").unwrap_err();
    assert_eq!(failure.class(), ErrorClass::ContractResolutionError);
    assert!(failure.message().starts_with("token.wasm declares a constructor taking admin: address"));
    assert_eq!(failure.context_value("reason"), Some("constructor-needs-arguments"));
    assert_eq!(failure.context_value("constructor"), Some("__constructor"));

    let plain = interface(vec![method(CONSTRUCTOR, &[]), method("transfer", &[("from", "address")])]);
    assert!(check_registrable(&plain, "token.wasm").is_ok());
}
