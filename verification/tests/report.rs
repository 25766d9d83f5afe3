use estamora::identifier::{IDENTIFIER_LIMIT, identifier};
use estamora::junit;
use estamora::markdown;
use estamora::report_model::{
    AssertionOutcome, CorpusIdentity, OutcomeFinding, ProfileIdentity, Report, ReportedAssertion, ReportedDiagnostic,
    RunnerIdentity, Summary, Target, VectorOutcome, VectorResult, bounded, report_assertion, report_vector,
    vector_id_is_acceptable,
};
use estamora::sanitise::sanitise;
use estamora::taxonomy::ConformanceStatus;
use estamora::vector_model::{AssertionCategory, category_of};

/// The schema's identifier pattern.
fn is_acceptable(id: &str) -> bool {
    let length = id.len();
    if !(2..=IDENTIFIER_LIMIT).contains(&length) {
        return false;
    }
    let mut characters = id.chars().peekable();
    loop {
        let segment: String = characters.by_ref().take_while(|character| *character != '-').collect();
        if segment.is_empty() || !segment.chars().all(|c| c.is_ascii_lowercase() || c.is_ascii_digit()) {
            return false;
        }
        if characters.peek().is_none() {
            return true;
        }
    }
}

#[test]
fn a_structured_name_becomes_a_plain_identifier() {
    assert_eq!(identifier("interface/method/transfer"), "interface-method-transfer");
    assert!(is_acceptable(&identifier("interface/method/transfer")));
}

#[test]
fn a_long_name_is_cut_and_made_distinct() {
    let prefix = "behavior/transfer-without-authorization-fails/postcondition";
    let first = identifier(&format!("{prefix}/0"));
    let second = identifier(&format!("{prefix}/1"));
    assert!(is_acceptable(&first), "{first} must satisfy the grammar");
    assert!(is_acceptable(&second));
    assert_ne!(first, second, "two distinct checks must not share an identifier");
}

#[test]
fn a_cut_that_falls_on_a_separator_leaves_no_empty_segment() {
    let raw = format!("{}/{}", "a".repeat(54), "b".repeat(20));
    let id = identifier(&raw);
    assert!(is_acceptable(&id), "{id} must satisfy the grammar");
    assert!(!id.contains("--"), "{id}");
    assert!(id.starts_with(&format!("{}-", "a".repeat(54))), "{id}");
    assert_eq!(id.len(), 54 + 1 + 8);
}

#[test]
fn normalisation_is_deterministic() {
    let raw = "behavior/transfer-without-authorization-fails/postcondition/0";
    assert_eq!(identifier(raw), identifier(raw));
}

#[test]
fn a_dotted_code_becomes_kebab_case() {
    assert_eq!(identifier("invariant-warning.balances-ok"), "invariant-warning-balances-ok");
}

#[test]
fn a_newline_cannot_start_a_new_markdown_block() {
    let hostile = "tokens\n\n## CONFORMANT\n\nEverything passed.";
    let safe = sanitise(hostile);
    assert!(!safe.contains('\n'), "{safe:?}");
    assert!(!safe.contains('#'), "{safe:?}");
}

#[test]
fn a_pipe_cannot_add_a_table_column() {
    let hostile = "value | injected | column";
    let safe = sanitise(hostile);
    assert!(!safe.contains('|'), "{safe:?}");
}

#[test]
fn a_backtick_cannot_open_a_code_span() {
    assert!(!sanitise("`code`").contains('`'));
}

#[test]
fn sanitising_is_bounded_and_idempotent() {
    let long = "a".repeat(500);
    let once = sanitise(&long);
    assert_eq!(once.chars().count(), 200);
    assert_eq!(sanitise(&once), once);
}

#[test]
fn ordinary_text_survives_unchanged() {
    assert_eq!(sanitise("a normal observation"), "a normal observation");
    assert_eq!(sanitise("sha256:abc"), "sha256:abc");
}

#[test]
fn truncation_is_visible_rather_than_silent() {
    let long = "a".repeat(2_100);
    let cut = bounded(&long, 2_000);
    assert_eq!(cut.chars().count(), 2_000);
    assert!(cut.ends_with('…'), "a truncated value must say so");
    assert_eq!(bounded("short", 2_000), "short");
}

fn interface_check() -> ReportedAssertion {
    ReportedAssertion {
        id: "interface-method-transfer".to_owned(),
        category: "interface".to_owned(),
        status: "passed".to_owned(),
        expected: "present".to_owned(),
        observed: "present".to_owned(),
        detail: None,
    }
}

#[test]
fn a_repeated_interface_check_is_counted_once() {
    let assertion = interface_check();
    let results = vec![
        VectorResult {
            vector_id: "one".to_owned(),
            category: "positive".to_owned(),
            status: "passed".to_owned(),
            assertions: vec![assertion.clone()],
            diagnostics: Vec::new(),
        },
        VectorResult {
            vector_id: "two".to_owned(),
            category: "positive".to_owned(),
            status: "passed".to_owned(),
            assertions: vec![assertion],
            diagnostics: Vec::new(),
        },
    ];
    let summary = Summary::of(&results);
    assert_eq!(summary.interface.total, 1);
    assert_eq!(summary.total(), 1);
}

/// A report with one failing vector.
fn a_failing_report() -> Report {
    let assertion = ReportedAssertion {
        id: "state-sender-debited".to_owned(),
        category: "state".to_owned(),
        status: "failed".to_owned(),
        expected: "750".to_owned(),
        observed: "500".to_owned(),
        detail: None,
    };
    Report {
        schema: Some(estamora::report_model::REPORT_SCHEMA.to_owned()),
        estamora_spec_version: "1.0".to_owned(),
        runner: RunnerIdentity { name: "estamora".to_owned(), version: "0.1.0".to_owned() },
        generated_at: "2026-01-15T12:00:00Z".to_owned(),
        target: Target {
            contract: "CAAAAAAAAAAAAAAAAAAAAAAAAAAAAAAAAAAAAAAAAAAAAAAAAAAAD2KM".to_owned(),
            network: "local".to_owned(),
            wasm_hash: None,
            metadata: Vec::new(),
        },
        profile: ProfileIdentity {
            id: "sep-41".to_owned(),
            version: "1.0".to_owned(),
            digest: format!("sha256:{}", "a".repeat(64)),
        },
        vectors: CorpusIdentity { digest: format!("sha256:{}", "b".repeat(64)), count: 20 },
        configuration: Vec::new(),
        results: vec![VectorResult {
            vector_id: "transfer-moves-exact-amount".to_owned(),
            category: "positive".to_owned(),
            status: "failed".to_owned(),
            assertions: vec![assertion],
            diagnostics: Vec::new(),
        }],
        summary: Summary::new(),
        status: ConformanceStatus::NonConformant,
        exit_code: 1,
    }
}

#[test]
fn every_rendering_states_the_verdict_it_is_given() {
    let report = a_failing_report();
    let markdown = markdown::render(&report);
    let junit = junit::render(&report);
    assert!(markdown.contains("NON_CONFORMANT"));
    assert!(junit.contains("failed"));
}

#[test]
fn every_rendering_says_what_it_does_not_establish() {
    let markdown = markdown::render(&a_failing_report());
    assert!(markdown.contains("not a security audit"), "{markdown}");
    assert!(markdown.contains("does not prove the absence of vulnerabilities"));
}

#[test]
fn a_check_that_failed_anywhere_is_summarised_as_failed() {
    let assertion = |status: &str| ReportedAssertion {
        id: "behavior-transfer-moves-exact-amount-postcondition-0".to_owned(),
        category: "behavior".to_owned(),
        status: status.to_owned(),
        expected: "decrease by 250".to_owned(),
        observed: "1000 -> 750".to_owned(),
        detail: None,
    };
    let result = |id: &str, status: &str| VectorResult {
        vector_id: id.to_owned(),
        category: "positive".to_owned(),
        status: status.to_owned(),
        assertions: vec![assertion(status)],
        diagnostics: Vec::new(),
    };

    let summary = Summary::of(&vec![result("passes", "passed"), result("fails", "failed")]);
    assert_eq!(summary.behavior.total, 1, "one identifier is one check");
    assert_eq!(summary.behavior.failed, 1);
    assert_eq!(summary.behavior.passed, 0);

    let reversed = Summary::of(&vec![result("fails", "failed"), result("passes", "passed")]);
    assert_eq!(reversed.behavior.failed, 1);
    assert_eq!(reversed.behavior.passed, 0);

    let held = Summary::of(&vec![result("one", "passed"), result("two", "passed")]);
    assert_eq!(held.behavior.total, 1);
    assert_eq!(held.behavior.passed, 1);
    assert_eq!(held.behavior.failed, 0);
}

#[test]
fn an_undeclared_dimension_is_named_rather_than_guessed() {
    assert!(category_of("interface").is_some());
    assert!(category_of("security").is_none());
}

fn report_with(status: &str, assertions: Vec<ReportedAssertion>) -> Report {
    let mut report = a_failing_report();
    report.target.contract = "CABC".to_owned();
    report.profile.digest = format!("sha256:{}", "0".repeat(64));
    report.vectors = CorpusIdentity { digest: format!("sha256:{}", "1".repeat(64)), count: 1 };
    report.results = vec![VectorResult {
        vector_id: "transfer-moves-exact-amount".to_owned(),
        category: "positive".to_owned(),
        status: status.to_owned(),
        assertions,
        diagnostics: Vec::new(),
    }];
    report
}

#[test]
fn an_undecidable_vector_is_an_error_rather_than_a_failure() {
    let mut report = report_with("error", Vec::new());
    report.results[0].diagnostics.push(ReportedDiagnostic {
        code: "interface-unavailable".to_owned(),
        message: "the artifact could not be read".to_owned(),
    });
    let xml = junit::render(&report);
    assert!(xml.contains("<error "), "{xml}");
    assert!(!xml.contains("<failure "), "{xml}");
    assert!(xml.contains("type=\"UNDECIDABLE\""), "{xml}");
}

#[test]
fn a_violated_vector_is_a_failure() {
    let report = report_with(
        "failed",
        vec![ReportedAssertion {
            id: "state-sender-debited".to_owned(),
            category: "state".to_owned(),
            status: "failed".to_owned(),
            expected: "750".to_owned(),
            observed: "500".to_owned(),
            detail: None,
        }],
    );
    let xml = junit::render(&report);
    assert!(xml.contains("<failure "), "{xml}");
    assert!(xml.contains("750"), "{xml}");
}

#[test]
fn hostile_content_cannot_close_an_attribute() {
    let mut report = report_with("failed", Vec::new());
    report.results[0].diagnostics.push(ReportedDiagnostic {
        code: "x".to_owned(),
        message: "\"/><testsuites failures=\"0".to_owned(),
    });
    let xml = junit::render(&report);
    assert!(!xml.contains("/><testsuites"), "{xml}");
    assert!(xml.contains("&quot;"), "{xml}");
}

#[test]
fn the_envelope_counts_what_its_children_carry() {
    let report = report_with("error", Vec::new());
    let xml = junit::render(&report);
    assert!(xml.contains("tests=\"1\" failures=\"0\" errors=\"1\" skipped=\"0\""), "{xml}");
}

#[test]
fn xml_escaping_writes_every_special_character_as_an_entity() {
    assert_eq!(junit::xml("<a href=\"x\">&'</a>"), "&lt;a href=&quot;x&quot;&gt;&amp;&apos;&lt;/a&gt;");
    assert_eq!(junit::xml("plain"), "plain");
}

#[test]
fn a_passing_report_renders_its_verdict_and_exit_code() {
    let mut report = report_with("passed", vec![interface_check()]);
    report.status = ConformanceStatus::Conformant;
    report.exit_code = 0;
    let markdown = markdown::render(&report);
    assert!(markdown.contains("**CONFORMANT**"), "{markdown}");
    assert!(markdown.contains("Process exit code `0`"), "{markdown}");
    assert!(markdown.ends_with(markdown::NOT_A_SECURITY_GUARANTEE));
    let xml = junit::render(&report);
    assert!(xml.contains("tests=\"1\" failures=\"0\" errors=\"0\" skipped=\"0\""), "{xml}");
    assert!(!xml.contains("<failure"), "{xml}");
}

#[test]
fn a_reported_check_is_normalised_and_bounded() {
    let outcome = AssertionOutcome {
        id: "state/sender.debited".to_owned(),
        category: AssertionCategory::State,
        status: "failed".to_owned(),
        expected: "x".repeat(2_500),
        observed: "500".to_owned(),
        detail: Some("the sender kept too much".to_owned()),
    };
    let reported = report_assertion(&outcome);
    assert_eq!(reported.id, "state-sender-debited");
    assert_eq!(reported.category, "state");
    assert_eq!(reported.status, "failed");
    assert_eq!(reported.expected.chars().count(), 2_000);
    assert!(reported.expected.ends_with('…'));
    assert_eq!(reported.observed, "500");
    assert_eq!(reported.detail.as_deref(), Some("check: state/sender.debited\nthe sender kept too much"));
}

#[test]
fn a_reported_vector_carries_its_checks_and_findings_in_order() {
    let outcome = VectorOutcome {
        vector_id: "transfer-moves-exact-amount".to_owned(),
        category: "positive".to_owned(),
        status: "error".to_owned(),
        assertions: vec![AssertionOutcome {
            id: "interface/method/transfer".to_owned(),
            category: AssertionCategory::Interface,
            status: "passed".to_owned(),
            expected: "present".to_owned(),
            observed: "present".to_owned(),
            detail: None,
        }],
        diagnostics: vec![OutcomeFinding { code: "Interface.Unavailable".to_owned(), message: "unreadable".to_owned() }],
    };
    let reported = report_vector(&outcome);
    assert_eq!(reported.vector_id, "transfer-moves-exact-amount");
    assert_eq!(reported.status, "error");
    assert_eq!(reported.assertions.len(), 1);
    assert_eq!(reported.assertions[0].id, "interface-method-transfer");
    assert_eq!(reported.assertions[0].detail.as_deref(), Some("check: interface/method/transfer"));
    assert_eq!(reported.diagnostics[0].code, "interface-unavailable");
    assert_eq!(reported.diagnostics[0].message, "unreadable");
}

#[test]
fn a_vector_identifier_is_accepted_only_within_the_schema_bounds() {
    assert!(!vector_id_is_acceptable("abc"));
    assert!(vector_id_is_acceptable("abcd"));
    assert!(vector_id_is_acceptable(&"a".repeat(96)));
    assert!(!vector_id_is_acceptable(&"a".repeat(97)));
}

#[test]
fn every_identifier_stays_within_the_schema_alphabet_and_bounds() {
    let long = "Ünïcode/Name with spaces and-symbols!".repeat(5);
    for raw in ["x", "", "!!", "Interface.Method.Transfer", long.as_str(), "a--b__c"] {
        let id = identifier(raw);
        assert!((2..=IDENTIFIER_LIMIT).contains(&id.len()), "{raw:?} gave {id:?}");
        assert!(id.chars().all(|c| c.is_ascii_lowercase() || c.is_ascii_digit() || c == '-'), "{raw:?} gave {id:?}");
    }
    assert_eq!(identifier("x").len(), 10, "a one-letter name is lengthened with a dash and eight digest digits");
}

#[test]
fn a_cut_that_ends_in_white_space_is_trimmed_by_a_second_pass() {
    let value = format!("{} b", "a".repeat(199));
    let once = sanitise(&value);
    assert_eq!(once, format!("{} ", "a".repeat(199)));
    assert_eq!(sanitise(&once), "a".repeat(199));
}

#[test]
fn the_envelope_counts_match_the_cases_of_a_mixed_run() {
    let mut report = report_with("passed", Vec::new());
    let template = report.results[0].clone();
    let statuses = ["failed", "error", "skipped", "failed", "passed", "skipped", "skipped"];
    report.results = statuses
        .iter()
        .enumerate()
        .map(|(i, status)| VectorResult {
            vector_id: format!("vector-{i}"),
            status: (*status).to_owned(),
            ..template.clone()
        })
        .collect();
    let xml = junit::render(&report);
    assert_eq!(xml.matches("<testcase ").count(), 7, "{xml}");
    assert_eq!(xml.matches("      <failure ").count(), 2, "{xml}");
    assert_eq!(xml.matches("      <error ").count(), 1, "{xml}");
    assert_eq!(xml.matches("      <skipped/>").count(), 3, "{xml}");
    assert!(xml.contains("tests=\"7\" failures=\"2\" errors=\"1\" skipped=\"3\""), "{xml}");
}

#[test]
fn the_summary_of_reordered_results_is_the_same() {
    let check = |id: &str, category: &str, status: &str| ReportedAssertion {
        id: id.to_owned(),
        category: category.to_owned(),
        status: status.to_owned(),
        expected: "x".to_owned(),
        observed: "y".to_owned(),
        detail: None,
    };
    let result = |id: &str, checks: Vec<ReportedAssertion>, warnings: usize| VectorResult {
        vector_id: id.to_owned(),
        category: "positive".to_owned(),
        status: "passed".to_owned(),
        assertions: checks,
        diagnostics: (0..warnings)
            .map(|n| ReportedDiagnostic {
                code: format!("invariant-warning-{n}"),
                message: "a warning was violated".to_owned(),
            })
            .collect(),
    };
    let results = vec![
        result("first", vec![check("a", "interface", "passed"), check("b", "state", "failed")], 1),
        result("second", vec![check("b", "state", "passed"), check("c", "behavior", "passed")], 0),
        result("third", vec![check("a", "interface", "failed"), check("d", "invariant", "passed")], 2),
    ];
    let mut reordered = vec![results[2].clone(), results[0].clone(), results[1].clone()];
    let summary = Summary::of(&results);
    assert_eq!(summary, Summary::of(&reordered));
    reordered.reverse();
    assert_eq!(summary, Summary::of(&reordered));
    assert_eq!(summary.interface.failed, 1);
    assert_eq!(summary.state.failed, 1);
    assert_eq!(summary.behavior.passed, 1);
    assert_eq!(summary.invariants.warnings, 3);
}
