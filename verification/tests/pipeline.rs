use webharvest::auth::{AuthJob, AuthOutcome, AuthResultJSON};
use webharvest::errors::ProcessorError;
use webharvest::parser::{
    Capture, JSONProcessingResultUnit, NextProcessingStep, ProcessingResultUnit, ProcessingStep,
    SelectorTarget,
};
use webharvest::response_adaptor::{Resp, RespAdaptMarker, derive_filename};
use webharvest::scheduler::{Scheduler, WorkUnit};
use webharvest::scraper_job::{HTTPMethod, ScraperJob};
use webharvest::scraper_unit::ScraperUnit;
use webharvest::storage::{FileExt, FileName, StorePlan, Storage};
use webharvest::url_parts::UrlParts;

fn bare_job() -> ScraperJob {
    ScraperJob {
        default_parameters: Vec::new(),
        dynamic_parameters: None,
        headers: Vec::new(),
        targets: Vec::new(),
    }
}

fn a_url(path: &str) -> UrlParts {
    UrlParts::new("https://example.com".to_string(), path.to_string(), Vec::new())
}

fn csrf_regex_step() -> ProcessingStep {
    ProcessingStep::Regex {
        regex: "csrf=(\\w+)".to_string(),
        capture_elements: Capture::Many(1),
        groups: vec![1],
        next_steps: Vec::new(),
        proc_result: JSONProcessingResultUnit::FormParameter("csrf".to_string()),
    }
}

#[test]
fn auth_chain_inherits_harvested_form_field() {
    let second = AuthJob {
        headers: Vec::new(),
        request_url: a_url("/login2"),
        http_method: HTTPMethod::POST,
        request_form: vec![("user".to_string(), "u".to_string())],
        proc_step: None,
        action: AuthResultJSON::ClientSession,
    };
    let first = AuthJob {
        headers: Vec::new(),
        request_url: a_url("/login"),
        http_method: HTTPMethod::GET,
        request_form: Vec::new(),
        proc_step: Some(csrf_regex_step()),
        action: AuthResultJSON::NextStep(Box::new(second)),
    };
    let outcome = first.advance(true, Some("<input/>csrf=abc<end>")).unwrap();
    match outcome {
        AuthOutcome::Continue(next) => {
            assert_eq!(next.request_url.path, "/login2");
            assert!(next.request_form.contains(&("csrf".to_string(), "abc".to_string())));
            assert!(next.request_form.contains(&("user".to_string(), "u".to_string())));
        },
        AuthOutcome::SessionEstablished => panic!("expected a next step"),
    }
}

#[test]
fn auth_non_success_status_is_fatal() {
    let step = AuthJob {
        headers: Vec::new(),
        request_url: a_url("/login"),
        http_method: HTTPMethod::GET,
        request_form: Vec::new(),
        proc_step: None,
        action: AuthResultJSON::ClientSession,
    };
    let r = step.advance(false, None);
    assert!(matches!(r, Err(ProcessorError::AuthenticationError(_))));
}

#[test]
fn auth_session_established_without_extraction() {
    let step = AuthJob {
        headers: Vec::new(),
        request_url: a_url("/login"),
        http_method: HTTPMethod::POST,
        request_form: Vec::new(),
        proc_step: None,
        action: AuthResultJSON::ClientSession,
    };
    let r = step.advance(true, None).unwrap();
    assert!(matches!(r, AuthOutcome::SessionEstablished));
}

#[test]
fn auth_inherit_replaces_existing_key_and_rejects_other_kinds() {
    let mut step = AuthJob {
        headers: Vec::new(),
        request_url: a_url("/login"),
        http_method: HTTPMethod::POST,
        request_form: vec![("csrf".to_string(), "old".to_string())],
        proc_step: None,
        action: AuthResultJSON::ClientSession,
    };
    step.inherit(Some(vec![ProcessingResultUnit::FormParameter {
        name: "csrf".to_string(),
        value: "new".to_string(),
    }]))
        .unwrap();
    assert_eq!(step.request_form, vec![("csrf".to_string(), "new".to_string())]);

    let r = step.inherit(Some(vec![ProcessingResultUnit::Str("nope".to_string())]));
    assert!(matches!(r, Err(ProcessorError::PairingError(_))));
    assert_eq!(step.request_form, vec![("csrf".to_string(), "new".to_string())]);
}

#[test]
fn dispatch_url_into_scrape_spawns_one_unit() {
    let job = bare_job();
    let inner = bare_job();
    let step = NextProcessingStep::Scrape(inner);
    let unit = ProcessingResultUnit::URL(a_url("/found"));
    let outcome = job.process_processed_result(&unit, &step).unwrap();
    assert_eq!(outcome.spawns.len(), 1);
    assert_eq!(outcome.spawns[0].url.path, "/found");
    assert!(outcome.errors.is_empty());
}

#[test]
fn dispatch_invalid_pairing_is_fatal() {
    let job = bare_job();
    let step = NextProcessingStep::Scrape(bare_job());
    let unit = ProcessingResultUnit::Str("text".to_string());
    let r = job.process_processed_result(&unit, &step);
    assert!(matches!(r, Err(ProcessorError::PairingError(_))));

    let store_step = NextProcessingStep::Store(Storage::GoogleDrive {
        folder_id: "f".to_string(),
    });
    let url_unit = ProcessingResultUnit::URL(a_url("/x"));
    let r2 = job.process_processed_result(&url_unit, &store_step);
    assert!(matches!(r2, Err(ProcessorError::PairingError(_))));
}

#[test]
fn dispatch_string_through_nested_extraction_spawns_found_urls() {
    let job = bare_job();
    let spawn_target = bare_job();
    let inner = ProcessingStep::Regex {
        regex: "href=(\\S+)".to_string(),
        capture_elements: Capture::All,
        groups: vec![1],
        next_steps: vec![NextProcessingStep::Scrape(spawn_target)],
        proc_result: JSONProcessingResultUnit::Base("https://example.com".to_string()),
    };
    let step = NextProcessingStep::Process(inner);
    let unit = ProcessingResultUnit::Str("href=/a href=/b".to_string());
    let outcome = job.process_processed_result(&unit, &step).unwrap();
    assert_eq!(outcome.spawns.len(), 2);
    assert_eq!(outcome.spawns[0].url.path, "/a");
    assert_eq!(outcome.spawns[1].url.path, "/b");
}

#[test]
fn response_dispatch_routes_stores_and_rejects_top_level_scrape() {
    let job = bare_job();
    let sink = Storage::GoogleDrive { folder_id: "folder".to_string() };
    let steps = vec![NextProcessingStep::Store(sink)];
    let resp = Resp::RespBytes {
        bts: vec![1, 2, 3],
        filename: "f.bin".to_string(),
        mime_type: None,
    };
    let outcome = job.process_adopted_response(&resp, &steps).unwrap();
    assert_eq!(outcome.stores.len(), 1);
    assert!(outcome.spawns.is_empty());
    assert!(outcome.errors.is_empty());

    let scrape_steps = vec![NextProcessingStep::Scrape(bare_job())];
    let r = job.process_adopted_response(&resp, &scrape_steps);
    assert!(matches!(r, Err(ProcessorError::PairingError(_))));
}

#[test]
fn response_dispatch_swallows_branch_local_extraction_miss() {
    let job = bare_job();
    let steps = vec![
        NextProcessingStep::Process(ProcessingStep::Regex {
            regex: "(\\d+)".to_string(),
            capture_elements: Capture::All,
            groups: vec![1],
            next_steps: Vec::new(),
            proc_result: JSONProcessingResultUnit::Str,
        }),
        NextProcessingStep::Store(Storage::GoogleDrive { folder_id: "f".to_string() }),
    ];
    let resp = Resp::RespText("no digits".to_string());
    let outcome = job.process_adopted_response(&resp, &steps).unwrap();
    assert_eq!(outcome.errors.len(), 2);
    assert!(outcome.spawns.is_empty());
}

#[test]
fn scheduler_backpressure_and_progress() {
    let mut s = Scheduler::new(1, 1);
    let mk = |p: &str| WorkUnit { job: bare_job(), url: a_url(p) };
    let mut waiting = vec![mk("/1"), mk("/2"), mk("/3")];
    waiting.reverse();
    let mut ran: Vec<String> = Vec::new();
    let mut held: Option<WorkUnit> = None;
    let mut running: Option<WorkUnit> = None;
    loop {
        assert!(s.pending_len() <= 1);
        assert!(s.in_flight_count() <= 1);
        let offer = if held.is_some() { held.take() } else { waiting.pop() };
        if let Some(unit) = offer {
            match s.try_enqueue(unit) {
                Ok(()) => {},
                Err(back) => {
                    held = Some(back);
                },
            }
        }
        if running.is_none() {
            if let Some(unit) = s.start_unit() {
                running = Some(unit);
            }
        }
        if let Some(unit) = running.take() {
            ran.push(unit.url.path.clone());
            s.finish_unit();
        }
        if held.is_none() && waiting.is_empty() && s.is_done() {
            break;
        }
    }
    assert_eq!(ran, vec!["/1".to_string(), "/2".to_string(), "/3".to_string()]);
}

#[test]
fn scheduler_enqueue_full_returns_unit() {
    let mut s = Scheduler::new(1, 1);
    let u1 = WorkUnit { job: bare_job(), url: a_url("/1") };
    let u2 = WorkUnit { job: bare_job(), url: a_url("/2") };
    assert!(s.try_enqueue(u1).is_ok());
    let back = s.try_enqueue(u2);
    match back {
        Err(unit) => assert_eq!(unit.url.path, "/2"),
        Ok(()) => panic!("a full queue must not take a unit"),
    }
    assert!(!s.is_done());
}

#[test]
fn seed_count_matches_urls() {
    let unit = ScraperUnit { scraper: bare_job(), urls: vec![a_url("/a"), a_url("/b")] };
    assert_eq!(unit.seed_count(), 2);
}

#[test]
fn filenames_are_prepared_per_sink() {
    let sink = Storage::LocalDrive {
        dirname: "/tmp/out".to_string(),
        filename_class: FileName::Origin,
        ext: Some(FileExt::JPEG),
    };
    let named = sink.prepare_filename("photo", &FileName::Origin, Some(&FileExt::JPEG));
    assert_eq!(named, "photo.jpeg");

    let random = sink.prepare_filename("photo", &FileName::RandomNanoid, Some(&FileExt::MP4));
    assert_eq!(random.chars().count(), 14);
    assert!(random.ends_with(".mp4"));
    let another = sink.prepare_filename("photo", &FileName::RandomNanoid, None);
    assert_eq!(another.chars().count(), 10);
    assert_ne!(another, "photo");

    assert!(matches!(FileName::default(), FileName::Origin));
}

#[test]
fn store_plans_follow_the_sink() {
    let resp = Resp::RespBytes {
        bts: vec![9, 9],
        filename: "clip".to_string(),
        mime_type: Some("video/mp4".to_string()),
    };
    let local = Storage::LocalDrive {
        dirname: "/data".to_string(),
        filename_class: FileName::Origin,
        ext: Some(FileExt::MP4),
    };
    match local.store(&resp) {
        StorePlan::WriteLocal { dir, filename } => {
            assert_eq!(dir, "/data");
            assert_eq!(filename, "clip.mp4");
        },
        other => panic!("expected a local plan, got {:?}", other),
    }
    let remote = Storage::GoogleDrive { folder_id: "folder9".to_string() };
    match remote.store(&resp) {
        StorePlan::UploadRemote { folder_id, filename, mime_type } => {
            assert_eq!(folder_id, "folder9");
            assert_eq!(filename, "clip");
            assert_eq!(mime_type, Some("video/mp4".to_string()));
        },
        other => panic!("expected a remote plan, got {:?}", other),
    }
}

#[test]
fn responses_re_materialize_from_bytes_to_text() {
    let resp = Resp::RespBytes {
        bts: "hello bytes".as_bytes().to_vec(),
        filename: "h".to_string(),
        mime_type: None,
    };
    assert!(matches!(resp.res_type_marker(), RespAdaptMarker::Bytes));
    assert!(RespAdaptMarker::Bytes.is_bytes());
    assert!(!RespAdaptMarker::Text.is_bytes());
    match resp.from_bytes(&RespAdaptMarker::Text) {
        Resp::RespText(t) => assert_eq!(t, "hello bytes"),
        other => panic!("expected text, got {:?}", other),
    }
}

#[test]
fn filenames_derive_from_path_segments_and_subtype() {
    let segs = vec!["media".to_string(), "clip".to_string()];
    assert_eq!(derive_filename(&segs, &Some("mp4".to_string())), "media_clip.mp4");
    let already = vec!["clip.mp4".to_string()];
    assert_eq!(derive_filename(&already, &Some("mp4".to_string())), "clip.mp4");
    assert_eq!(derive_filename(&segs, &None), "media_clip");
    let single = vec!["one".to_string()];
    assert_eq!(derive_filename(&single, &None), "one");
}

#[test]
fn handle_adopted_response_reports_transport_failure() {
    let job = bare_job();
    let steps: Vec<NextProcessingStep> = Vec::new();
    let (kept, dispatched, err) = job.handle_adopted_response_res(
        Err(ProcessorError::HTTPRequestError("timed out".to_string())),
        &steps,
    );
    assert!(kept.is_none());
    assert!(dispatched.is_ok());
    assert!(matches!(err, Some(ProcessorError::HTTPRequestError(_))));

    let (kept2, dispatched2, err2) = job.handle_adopted_response_res(
        Ok(Resp::RespText("body".to_string())),
        &steps,
    );
    assert!(matches!(kept2, Some(Resp::RespText(_))));
    assert!(dispatched2.is_ok());
    assert!(err2.is_none());
}

#[test]
fn load_time_validation_walks_spawned_jobs() {
    let good = ScraperJob {
        default_parameters: Vec::new(),
        dynamic_parameters: None,
        headers: Vec::new(),
        targets: vec![(
            RespAdaptMarker::Text,
            vec![NextProcessingStep::Process(ProcessingStep::Html {
                selector: "a".to_string(),
                capture_elements: Capture::All,
                selector_target: SelectorTarget::Text,
                proc_result: JSONProcessingResultUnit::Str,
                next_steps: Vec::new(),
            })],
        )],
    };
    assert!(good.validate().is_ok());

    let spawned_with_bad_pattern = ScraperJob {
        default_parameters: Vec::new(),
        dynamic_parameters: None,
        headers: Vec::new(),
        targets: vec![(
            RespAdaptMarker::Text,
            vec![NextProcessingStep::Process(ProcessingStep::Regex {
                regex: "(broken".to_string(),
                capture_elements: Capture::All,
                groups: vec![1],
                next_steps: Vec::new(),
                proc_result: JSONProcessingResultUnit::Str,
            })],
        )],
    };
    let outer = ScraperJob {
        default_parameters: Vec::new(),
        dynamic_parameters: None,
        headers: Vec::new(),
        targets: vec![(
            RespAdaptMarker::Text,
            vec![NextProcessingStep::Process(ProcessingStep::Html {
                selector: "a".to_string(),
                capture_elements: Capture::All,
                selector_target: SelectorTarget::Attr("href".to_string()),
                proc_result: JSONProcessingResultUnit::URL,
                next_steps: vec![NextProcessingStep::Scrape(spawned_with_bad_pattern)],
            })],
        )],
    };
    let r = outer.validate();
    assert!(matches!(r, Err(ProcessorError::RegexBuildError(_))));

    let bad_selector = ScraperJob {
        default_parameters: Vec::new(),
        dynamic_parameters: None,
        headers: Vec::new(),
        targets: vec![(
            RespAdaptMarker::Text,
            vec![NextProcessingStep::Process(ProcessingStep::Html {
                selector: "a[".to_string(),
                capture_elements: Capture::All,
                selector_target: SelectorTarget::Text,
                proc_result: JSONProcessingResultUnit::Str,
                next_steps: Vec::new(),
            })],
        )],
    };
    assert!(matches!(bad_selector.validate(), Err(ProcessorError::HtmlParserBuildError(_))));
}
