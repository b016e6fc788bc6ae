use ingram::scan::{aggregate_report, chunk_size, ports_for_target};

fn lines(raw: &[&str]) -> Vec<String> {
    raw.iter().map(|s| s.to_string()).collect()
}

#[test]
fn report_groups_by_product_and_name() {
    let records = lines(&[
        "10.0.0.1,80,dahua,admin,admin,dahua-weak-password",
        "10.0.0.2,80,dahua,admin,admin,dahua-weak-password",
        "10.0.0.3,80,hikvision,admin,abc12345,hikvision-weak-password",
        "10.0.0.4,81,dahua,admin,admin,dahua-other-flaw",
    ]);
    let summary = aggregate_report(&records);
    assert_eq!(summary.total, 4);
    assert_eq!(summary.entries.len(), 2);

    let dahua = summary
        .entries
        .iter()
        .find(|e| e.product == "dahua")
        .unwrap();
    assert_eq!(dahua.vulns.len(), 2);
    assert!(dahua
        .vulns
        .contains(&("dahua-weak-password".to_string(), 2)));
    assert!(dahua.vulns.contains(&("dahua-other-flaw".to_string(), 1)));

    let hik = summary
        .entries
        .iter()
        .find(|e| e.product == "hikvision")
        .unwrap();
    assert_eq!(
        hik.vulns,
        vec![("hikvision-weak-password".to_string(), 1)]
    );
}

#[test]
fn report_ignores_short_lines() {
    let records = lines(&[
        "not,a,record",
        "",
        "10.0.0.1,80,dahua,admin,admin,dahua-weak-password",
    ]);
    let summary = aggregate_report(&records);
    assert_eq!(summary.total, 1);
    assert_eq!(summary.entries.len(), 1);
}

#[test]
fn empty_results_make_an_empty_report() {
    let summary = aggregate_report(&Vec::new());
    assert_eq!(summary.total, 0);
    assert!(summary.entries.is_empty());
}

#[test]
fn chunks_split_evenly_but_never_empty() {
    assert_eq!(chunk_size(100, 10), 10);
    assert_eq!(chunk_size(5, 10), 1);
    assert_eq!(chunk_size(0, 3), 1);
    assert_eq!(chunk_size(7, 2), 3);
}

#[test]
fn core_holds_a_pipeline_only_when_snapshots_are_enabled() {
    let data = ingram::session::Data::new("task".to_string(), 0);
    let config = ingram::config::Config::new(
        "in".to_string(),
        "out".to_string(),
        None,
        Some(4),
        None,
        false,
        false,
        Vec::new(),
    );
    let core = ingram::scan::Core::new(config, data, 2);
    assert!(core.snapshot_pipeline.is_some());
    assert_eq!(core.poc_dict.groups.len(), 2);

    let data = ingram::session::Data::new("task".to_string(), 0);
    let config = ingram::config::Config::new(
        "in".to_string(),
        "out".to_string(),
        None,
        Some(4),
        None,
        true,
        false,
        Vec::new(),
    );
    let core = ingram::scan::Core::new(config, data, 0);
    assert!(core.snapshot_pipeline.is_none());
}

#[test]
fn explicit_port_overrides_the_configured_list() {
    let config = ingram::config::Config::new(
        "in".to_string(),
        "out".to_string(),
        Some(vec![80, 8080]),
        None,
        None,
        false,
        false,
        Vec::new(),
    );
    assert_eq!(ports_for_target(Some(37777), &config), vec![37777]);
    assert_eq!(ports_for_target(None, &config), vec![80, 8080]);
}
