use ingram::config::{Config, Rule};
use ingram::fingerprint::{fingerprint_next, FingerprintStep, ResponseCache};
use ingram::net::TargetStream;
use ingram::pipeline::SnapshotPipeline;
use ingram::poc::{credential_pairs, Poc};
use ingram::pocs::{DahuaWeakPassword, PocDict, PocGroup, RegisteredPoc};
use ingram::scan::{aggregate_report, ports_for_target};
use ingram::session::{vulnerable_line, Data};

/// The full flow over one /30 input line: four hosts are probed, each is
/// classified by the single title rule, the registered verifier confirms
/// the first credential pair, and one capture is queued per confirmation.
/// The network itself is simulated: every probe finds the port open and
/// every request is answered with the canned responses below.
#[test]
fn a_slash_30_input_confirms_four_hosts() {
    let rules = vec![Rule {
        product: "webcam".to_string(),
        path: "/".to_string(),
        val: "title=`demo`".to_string(),
    }];
    let config = Config::new(
        "targets.txt".to_string(),
        "out".to_string(),
        Some(vec![80]),
        Some(2),
        None,
        false,
        false,
        rules,
    );
    // the verifier registered for the classified product; it confirms any
    // host whose login endpoint answers with a JSON `result: true`
    let dict = PocDict {
        groups: vec![PocGroup {
            product: "webcam".to_string(),
            pocs: vec![RegisteredPoc::Dahua(DahuaWeakPassword::new(&config))],
        }],
    };

    let mut data = Data::new("task".to_string(), 0);
    data.tally_spec_line("10.0.0.0/30");
    assert_eq!(data.get_total(), 4);

    let mut pipeline = SnapshotPipeline::new(config.th_num as u64, 0);
    let mut results_csv: Vec<String> = Vec::new();
    let mut snapshots: Vec<String> = Vec::new();

    let mut stream = TargetStream::new(vec!["10.0.0.0/30".to_string()]);
    let mut probed = 0;
    while let Some(host) = stream.next() {
        let mut target_found = false;
        for port in ports_for_target(None, &config) {
            probed += 1; // the simulated probe finds the port open

            // fingerprint: fetch "/" once, match the title rule
            let mut cache = ResponseCache::new();
            let product = loop {
                match fingerprint_next(&config.rules, &cache, 0, &host, port) {
                    FingerprintStep::Fetch { url, .. } => {
                        assert_eq!(url, format!("http://{host}:80/"));
                        cache.insert(
                            "/".to_string(),
                            Some("<title>demo camera</title>".to_string()),
                        );
                    }
                    FingerprintStep::Done { product } => break product,
                }
            };
            let product = product.expect("the title rule matches");
            assert_eq!(product, "webcam");

            let group = dict.get(&product).expect("a verifier is registered");
            for poc in &group.pocs {
                // credential search: the first pair already succeeds
                let mut confirmed = None;
                for (user, password) in credential_pairs(&config.users, &config.passwords) {
                    let probe = poc.login_probe(&host, port, &user, &password);
                    assert!(probe.body.is_some());
                    let (status, body) = (200u16, "{\"result\":true}");
                    if poc.verify_success(status, body) {
                        confirmed = Some(poc.make_result(&host, port, &user, &password));
                        break;
                    }
                }
                let result = confirmed.expect("the verifier always succeeds");
                assert_eq!(result.user, "admin");
                assert_eq!(result.password, "admin");
                target_found = true;
                results_csv.push(vulnerable_line(&result));

                // snapshot capture runs through the bounded pipeline
                while !pipeline.can_put() {
                    unreachable!("two workers give room for four jobs");
                }
                pipeline.put();
                pipeline.start_job();
                let plan = poc.snapshot_requests(&result, 1, &config);
                for request in &plan {
                    snapshots.push(request.file_name.clone());
                }
                pipeline.finish_job(plan.len() as u64);
            }
        }
        // the target finishes first; its find is counted after, so the
        // found count never runs ahead of the done count
        data.add_done();
        if target_found {
            data.add_found();
        }
    }

    assert_eq!(probed, 4);
    assert_eq!(data.get_done(), 4);
    assert_eq!(data.get_found(), 4);
    assert!(data.is_finished());
    assert_eq!(results_csv.len(), 4);
    for (i, line) in results_csv.iter().enumerate() {
        assert_eq!(
            line,
            &format!("10.0.0.{i},80,dahua,admin,admin,dahua-weak-password")
        );
    }
    // the pipeline drained: every enqueued capture ran, one artifact each
    assert!(pipeline.is_empty());
    assert_eq!(pipeline.get_done(), 4);
    assert_eq!(snapshots.len(), 4);
    assert_eq!(snapshots[0], "10.0.0.0-80-admin-admin.jpg");

    // the final report groups the four records under one product and name
    let summary = aggregate_report(&results_csv);
    assert_eq!(summary.total, 4);
    assert_eq!(summary.entries.len(), 1);
    assert_eq!(summary.entries[0].product, "dahua");
    assert_eq!(summary.entries[0].vulns.len(), 1);
    assert_eq!(
        summary.entries[0].vulns[0],
        ("dahua-weak-password".to_string(), 4)
    );
}
