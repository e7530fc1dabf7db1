use webharvest::decimal::u16_to_string;
use webharvest::errors::ProcessorError;
use webharvest::scraper_job::{
    DynParamsIterator, DynamicParameters, HTTPParameterType, ScraperJob,
};
use webharvest::url_parts::UrlParts;

fn drain(it: &mut DynParamsIterator) -> Vec<String> {
    let mut out: Vec<String> = Vec::new();
    while let Some(v) = it.next() {
        out.push(v);
    }
    out
}

#[test]
fn decimal_rendering() {
    assert_eq!(u16_to_string(0), "0");
    assert_eq!(u16_to_string(7), "7");
    assert_eq!(u16_to_string(10), "10");
    assert_eq!(u16_to_string(65535), "65535");
}

#[test]
fn int_range_values_and_length() {
    let params = DynamicParameters::IntRange {
        name: HTTPParameterType::Name("page".to_string()),
        start: 2,
        end: 10,
        step: 3,
    };
    let mut it = DynParamsIterator::new(&params).unwrap();
    assert_eq!(it.len(), 3);
    assert!(!it.is_empty());
    let values = drain(&mut it);
    assert_eq!(values, vec!["2".to_string(), "5".to_string(), "8".to_string()]);
}

#[test]
fn int_range_single_value() {
    let params = DynamicParameters::IntRange {
        name: HTTPParameterType::Name("p".to_string()),
        start: 4,
        end: 4,
        step: 1,
    };
    let mut it = DynParamsIterator::new(&params).unwrap();
    assert_eq!(it.len(), 1);
    assert_eq!(drain(&mut it), vec!["4".to_string()]);
}

#[test]
fn int_range_empty_when_start_exceeds_end() {
    let params = DynamicParameters::IntRange {
        name: HTTPParameterType::Name("p".to_string()),
        start: 9,
        end: 3,
        step: 2,
    };
    let mut it = DynParamsIterator::new(&params).unwrap();
    assert_eq!(it.len(), 0);
    assert!(it.is_empty());
    assert!(it.next().is_none());
}

#[test]
fn int_range_step_zero_is_config_error() {
    let params = DynamicParameters::IntRange {
        name: HTTPParameterType::Name("p".to_string()),
        start: 1,
        end: 5,
        step: 0,
    };
    let r = DynParamsIterator::new(&params);
    assert!(matches!(r, Err(ProcessorError::ConfigError(_))));
}

#[test]
fn keywords_yield_in_order() {
    let params = DynamicParameters::KeyWords {
        name: HTTPParameterType::Name("q".to_string()),
        words: vec!["alpha".to_string(), "beta".to_string(), "gamma".to_string()],
    };
    let mut it = DynParamsIterator::new(&params).unwrap();
    assert_eq!(it.len(), 3);
    let values = drain(&mut it);
    assert_eq!(values, vec!["alpha".to_string(), "beta".to_string(), "gamma".to_string()]);
}

#[test]
fn two_runs_of_one_spec_agree() {
    let params = DynamicParameters::IntRange {
        name: HTTPParameterType::Suffix("/page/".to_string()),
        start: 1,
        end: 9,
        step: 2,
    };
    let mut first = DynParamsIterator::new(&params).unwrap();
    let mut second = DynParamsIterator::new(&params).unwrap();
    assert_eq!(drain(&mut first), drain(&mut second));

    let words = DynamicParameters::KeyWords {
        name: HTTPParameterType::Name("q".to_string()),
        words: vec!["x".to_string(), "y".to_string()],
    };
    let mut w1 = DynParamsIterator::new(&words).unwrap();
    let mut w2 = DynParamsIterator::new(&words).unwrap();
    assert_eq!(drain(&mut w1), drain(&mut w2));
}

fn base_url() -> UrlParts {
    UrlParts::new("https://example.com".to_string(), "/list".to_string(), Vec::new())
}

fn five_defaults() -> Vec<(String, String)> {
    vec![
        ("a".to_string(), "1".to_string()),
        ("b".to_string(), "2".to_string()),
        ("c".to_string(), "3".to_string()),
        ("d".to_string(), "4".to_string()),
        ("e".to_string(), "5".to_string()),
    ]
}

#[test]
fn plan_yields_one_descriptor_per_word_with_all_defaults() {
    let job = ScraperJob {
        default_parameters: five_defaults(),
        dynamic_parameters: Some(DynamicParameters::KeyWords {
            name: HTTPParameterType::Name("q".to_string()),
            words: vec!["cat".to_string(), "dog".to_string(), "fox".to_string()],
        }),
        headers: Vec::new(),
        targets: Vec::new(),
    };
    let url = base_url();
    let mut plan = job.iter().unwrap().with_url(&url);
    let mut descriptors: Vec<UrlParts> = Vec::new();
    while let Some(d) = plan.next() {
        descriptors.push(d);
    }
    assert_eq!(descriptors.len(), 3);
    let words = ["cat", "dog", "fox"];
    for (k, d) in descriptors.iter().enumerate() {
        assert_eq!(d.scheme_host, "https://example.com");
        assert_eq!(d.path, "/list");
        assert_eq!(d.query.len(), 6);
        for (i, (name, value)) in five_defaults().iter().enumerate() {
            assert_eq!(&d.query[i].0, name);
            assert_eq!(&d.query[i].1, value);
        }
        assert_eq!(d.query[5].0, "q");
        assert_eq!(d.query[5].1, words[k]);
    }
}

#[test]
fn plan_applies_suffix_to_path() {
    let job = ScraperJob {
        default_parameters: vec![("k".to_string(), "v".to_string())],
        dynamic_parameters: Some(DynamicParameters::IntRange {
            name: HTTPParameterType::Suffix("/page/".to_string()),
            start: 1,
            end: 2,
            step: 1,
        }),
        headers: Vec::new(),
        targets: Vec::new(),
    };
    let url = base_url();
    let mut plan = job.iter().unwrap().with_url(&url);
    let first = plan.next().unwrap();
    assert_eq!(first.path, "/list/page/1");
    assert_eq!(first.query.len(), 1);
    let second = plan.next().unwrap();
    assert_eq!(second.path, "/list/page/2");
    assert!(plan.next().is_none());
}

#[test]
fn plan_without_parameter_spec_yields_exactly_one() {
    let job = ScraperJob {
        default_parameters: vec![("k".to_string(), "v".to_string())],
        dynamic_parameters: None,
        headers: Vec::new(),
        targets: Vec::new(),
    };
    let url = base_url();
    let mut plan = job.iter().unwrap().with_url(&url);
    let only = plan.next().unwrap();
    assert_eq!(only.path, "/list");
    assert_eq!(only.query.len(), 1);
    assert!(plan.next().is_none());
}
