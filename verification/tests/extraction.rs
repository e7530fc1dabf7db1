use webharvest::errors::ProcessorError;
use webharvest::parser::{
    Capture, FinishedProcessingResult, JSONProcessingResultUnit, JsonValue, LookupBlock,
    ProcessingResultUnit, ProcessingStep, SelectorTarget,
};
use webharvest::url_parts::UrlParts;

fn html_step(selector: &str, cap: Capture, target: SelectorTarget) -> ProcessingStep {
    ProcessingStep::Html {
        selector: selector.to_string(),
        capture_elements: cap,
        selector_target: target,
        proc_result: JSONProcessingResultUnit::Str,
        next_steps: Vec::new(),
    }
}

#[test]
fn markup_first_href_resolved_against_base() {
    let base = UrlParts::new(
        "https://example.com".to_string(),
        "/page".to_string(),
        Vec::new(),
    );
    let step = ProcessingStep::Html {
        selector: "a".to_string(),
        capture_elements: Capture::Many(1),
        selector_target: SelectorTarget::Attr("href".to_string()),
        proc_result: JSONProcessingResultUnit::PartialURL(base),
        next_steps: Vec::new(),
    };
    let doc = "<a href=\"/x\">A</a><a href=\"/y\">B</a>";
    let r = step.process_string_result(doc).unwrap();
    match r {
        FinishedProcessingResult::VectorResult(units) => {
            assert_eq!(units.len(), 1);
            match &units[0] {
                ProcessingResultUnit::URL(u) => {
                    assert_eq!(u.scheme_host, "https://example.com");
                    assert_eq!(u.path, "/x");
                },
                other => panic!("expected a URL unit, got {:?}", other),
            }
        },
        FinishedProcessingResult::NothingRequired => panic!("expected captured units"),
    }
}

#[test]
fn markup_text_content() {
    let step = html_step("a", Capture::All, SelectorTarget::Text);
    let r = step.process_string_result("<a href=\"/x\">first</a><a>second</a>").unwrap();
    match r {
        FinishedProcessingResult::VectorResult(units) => {
            assert_eq!(units.len(), 2);
            match (&units[0], &units[1]) {
                (ProcessingResultUnit::Str(a), ProcessingResultUnit::Str(b)) => {
                    assert_eq!(a, "first");
                    assert_eq!(b, "second");
                },
                _ => panic!("expected string units"),
            }
        },
        FinishedProcessingResult::NothingRequired => panic!("expected captured units"),
    }
}

#[test]
fn markup_missing_attribute_is_skipped_and_empty_capture_reported() {
    let step = html_step("a", Capture::All, SelectorTarget::Attr("href".to_string()));
    let r = step.process_string_result("<a>no attribute here</a>");
    assert!(matches!(r, Err(ProcessorError::NothingToCaptureError)));
}

#[test]
fn markup_invalid_selector_rejected() {
    let step = html_step("a[", Capture::All, SelectorTarget::Text);
    let r = step.process_string_result("<a>x</a>");
    assert!(matches!(r, Err(ProcessorError::HtmlParserBuildError(_))));
}

fn regex_step(pattern: &str, groups: Vec<u8>, cap: Capture) -> ProcessingStep {
    ProcessingStep::Regex {
        regex: pattern.to_string(),
        capture_elements: cap,
        groups,
        next_steps: Vec::new(),
        proc_result: JSONProcessingResultUnit::Str,
    }
}

fn expect_strings(r: Result<FinishedProcessingResult, ProcessorError>) -> Vec<String> {
    match r.unwrap() {
        FinishedProcessingResult::VectorResult(units) => units
            .into_iter()
            .map(|u| match u {
                ProcessingResultUnit::Str(s) => s,
                other => panic!("expected a string unit, got {:?}", other),
            })
            .collect(),
        FinishedProcessingResult::NothingRequired => panic!("expected captured units"),
    }
}

#[test]
fn pattern_groups_ordered_by_group_index() {
    let step = regex_step("(\\d+)-(\\d+)", vec![1, 2], Capture::All);
    let values = expect_strings(step.process_string_result("12-34"));
    assert_eq!(values, vec!["12".to_string(), "34".to_string()]);
}

#[test]
fn pattern_cardinality_cuts_after_ordering() {
    let step = regex_step("(\\d+)-(\\d+)", vec![1, 2], Capture::Many(1));
    let values = expect_strings(step.process_string_result("12-34"));
    assert_eq!(values, vec!["12".to_string()]);
}

#[test]
fn pattern_group_values_keep_match_order() {
    let step = regex_step("(\\d+)-(\\d+)", vec![2, 1], Capture::All);
    let values = expect_strings(step.process_string_result("12-34 56-78"));
    assert_eq!(
        values,
        vec!["12".to_string(), "56".to_string(), "34".to_string(), "78".to_string()],
    );
}

#[test]
fn pattern_invalid_is_rejected() {
    let step = regex_step("(unclosed", vec![1], Capture::All);
    let r = step.process_string_result("whatever");
    assert!(matches!(r, Err(ProcessorError::RegexBuildError(_))));
}

#[test]
fn pattern_without_match_reports_empty_capture() {
    let step = regex_step("(\\d+)", vec![1], Capture::All);
    let r = step.process_string_result("no digits");
    assert!(matches!(r, Err(ProcessorError::NothingToCaptureError)));
}

fn json_step(path: Vec<LookupBlock>) -> ProcessingStep {
    ProcessingStep::JSON {
        lookup_search: path,
        next_steps: Vec::new(),
        proc_result: JSONProcessingResultUnit::Str,
    }
}

#[test]
fn path_lookup_broadcast_collects_per_element() {
    let step = json_step(vec![
        LookupBlock::Att("items".to_string()),
        LookupBlock::Broadcast,
        LookupBlock::Att("v".to_string()),
        LookupBlock::Take,
    ]);
    let values = expect_strings(step.process_string_result("{\"items\":[{\"v\":1},{\"v\":2}]}"));
    assert_eq!(values, vec!["1".to_string(), "2".to_string()]);
}

#[test]
fn path_lookup_field_on_array_is_shape_error_not_empty() {
    let step = json_step(vec![
        LookupBlock::Att("items".to_string()),
        LookupBlock::Att("v".to_string()),
        LookupBlock::Take,
    ]);
    let r = step.process_string_result("{\"items\":[{\"v\":1},{\"v\":2}]}");
    assert!(matches!(r, Err(ProcessorError::ExtractionShapeError(_))));
}

#[test]
fn path_lookup_index_and_scalars() {
    let step = json_step(vec![
        LookupBlock::Att("items".to_string()),
        LookupBlock::Pos(1),
        LookupBlock::Att("v".to_string()),
        LookupBlock::Take,
    ]);
    let values = expect_strings(
        step.process_string_result("{\"items\":[{\"v\":true},{\"v\":\"text\"}]}"),
    );
    assert_eq!(values, vec!["text".to_string()]);
}

#[test]
fn path_lookup_missing_index_is_shape_error() {
    let step = json_step(vec![LookupBlock::Pos(5), LookupBlock::Take]);
    let r = step.process_string_result("[1,2]");
    assert!(matches!(r, Err(ProcessorError::ExtractionShapeError(_))));
}

#[test]
fn path_lookup_malformed_document_rejected() {
    let step = json_step(vec![LookupBlock::Take]);
    let r = step.process_string_result("{not json");
    assert!(matches!(r, Err(ProcessorError::JsonParseError(_))));
}

#[test]
fn lookup_walk_on_value_directly() {
    let step = json_step(vec![LookupBlock::Broadcast, LookupBlock::Take]);
    let doc = JsonValue::Arr(vec![
        JsonValue::Bool(true),
        JsonValue::Num("42".to_string()),
        JsonValue::Str("x".to_string()),
    ]);
    let path = vec![LookupBlock::Broadcast, LookupBlock::Take];
    let values = step.parse_json_value(0, &doc, &path).unwrap();
    assert_eq!(values, vec!["true".to_string(), "42".to_string(), "x".to_string()]);
}

#[test]
fn shaping_url_rules() {
    let step = json_step(vec![LookupBlock::Take]);

    let verbatim = step
        .string_to_processing_result(
            "https://example.com/a?x=1".to_string(),
            &JSONProcessingResultUnit::URL,
        )
        .unwrap();
    match verbatim {
        ProcessingResultUnit::URL(u) => {
            assert_eq!(u.scheme_host, "https://example.com");
            assert_eq!(u.path, "/a");
            assert_eq!(u.query, vec![("x".to_string(), "1".to_string())]);
        },
        other => panic!("expected a URL unit, got {:?}", other),
    }

    let bad = step.string_to_processing_result(
        "not a url".to_string(),
        &JSONProcessingResultUnit::URL,
    );
    assert!(matches!(bad, Err(ProcessorError::UrlParseError(_))));

    let base = UrlParts::new(
        "https://example.com".to_string(),
        "/dir/page".to_string(),
        Vec::new(),
    );
    let joined = step
        .string_to_processing_result(
            "other".to_string(),
            &JSONProcessingResultUnit::PartialURL(base),
        )
        .unwrap();
    match joined {
        ProcessingResultUnit::URL(u) => assert_eq!(u.path, "/dir/other"),
        other => panic!("expected a URL unit, got {:?}", other),
    }

    let with_param = step
        .string_to_processing_result(
            "7".to_string(),
            &JSONProcessingResultUnit::Parameter(
                UrlParts::new("https://example.com".to_string(), "/s".to_string(), Vec::new()),
                "page".to_string(),
            ),
        )
        .unwrap();
    match with_param {
        ProcessingResultUnit::URL(u) => {
            assert_eq!(u.query, vec![("page".to_string(), "7".to_string())]);
        },
        other => panic!("expected a URL unit, got {:?}", other),
    }

    let concat = step
        .string_to_processing_result(
            "42".to_string(),
            &JSONProcessingResultUnit::Base("https://example.com/item/".to_string()),
        )
        .unwrap();
    match concat {
        ProcessingResultUnit::URL(u) => assert_eq!(u.path, "/item/42"),
        other => panic!("expected a URL unit, got {:?}", other),
    }

    let form = step
        .string_to_processing_result(
            "abc".to_string(),
            &JSONProcessingResultUnit::FormParameter("csrf".to_string()),
        )
        .unwrap();
    match form {
        ProcessingResultUnit::FormParameter { name, value } => {
            assert_eq!(name, "csrf");
            assert_eq!(value, "abc");
        },
        other => panic!("expected a form parameter, got {:?}", other),
    }
}

#[test]
fn url_parse_decomposes_and_rejects() {
    let step = json_step(vec![LookupBlock::Take]);
    let parsed = step
        .string_to_processing_result(
            "https://example.com:8080/a/b?k=v&k2=v2".to_string(),
            &JSONProcessingResultUnit::URL,
        )
        .unwrap();
    match parsed {
        ProcessingResultUnit::URL(u) => {
            assert_eq!(u.scheme_host, "https://example.com:8080");
            assert_eq!(u.path, "/a/b");
            assert_eq!(
                u.query,
                vec![("k".to_string(), "v".to_string()), ("k2".to_string(), "v2".to_string())],
            );
        },
        other => panic!("expected a URL unit, got {:?}", other),
    }
    let rejected = step.string_to_processing_result(
        "::nope::".to_string(),
        &JSONProcessingResultUnit::URL,
    );
    assert!(matches!(rejected, Err(ProcessorError::UrlParseError(_))));
}

#[test]
fn error_labels_are_short_and_present() {
    let e = ProcessorError::NothingToCaptureError;
    assert!(!e.kind_label().is_empty());
    let u = ProcessorError::UrlParseError("x".to_string());
    assert!(!u.kind_label().is_empty());
}

#[test]
fn url_duplicate_is_equal_and_independent() {
    let mut u = UrlParts::new(
        "https://example.com".to_string(),
        "/p".to_string(),
        vec![("a".to_string(), "1".to_string())],
    );
    let copy = u.duplicate();
    u.append_query_pair("b".to_string(), "2".to_string());
    assert_eq!(copy.query.len(), 1);
    assert_eq!(u.query.len(), 2);
    assert_eq!(copy.scheme_host, u.scheme_host);
}
