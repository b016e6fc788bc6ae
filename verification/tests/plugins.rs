use ingram::config::{Config, Rule};
use ingram::poc::{credential_pairs, BasePoc, Poc, PocResult};
use ingram::pocs::{get_poc_dict, DahuaWeakPassword, HikvisionWeakPassword};

fn test_config() -> Config {
    Config::new(
        "targets.txt".to_string(),
        "out".to_string(),
        None,
        None,
        None,
        false,
        false,
        Vec::new(),
    )
}

#[test]
fn dahua_judges_the_login_response() {
    let poc = DahuaWeakPassword::new(&test_config());
    assert!(poc.verify_success(200, "{\"result\":true,\"session\":7}"));
    assert!(!poc.verify_success(200, "{\"result\":false}"));
    assert!(!poc.verify_success(200, "{\"outcome\":true}"));
    assert!(!poc.verify_success(200, "not json at all"));
    assert!(!poc.verify_success(401, "{\"result\":true}"));
}

#[test]
fn dahua_login_probe_carries_the_json_payload() {
    let poc = DahuaWeakPassword::new(&test_config());
    let probe = poc.login_probe("10.0.0.1", 80, "admin", "abc12345");
    assert_eq!(probe.url, "http://10.0.0.1:80/RPC2_Login");
    assert_eq!(probe.user, "admin");
    assert_eq!(probe.password, "abc12345");
    assert_eq!(
        probe.body.as_deref(),
        Some(
            "{\"id\":1,\"method\":\"global.login\",\"params\":{\"authorityType\":\"Default\",\
             \"clientType\":\"Web3.0\",\"loginType\":\"Direct\",\"password\":\"abc12345\",\
             \"passwordType\":\"Plain\",\"userName\":\"admin\"},\"session\":0}"
        )
    );
}

#[test]
fn dahua_payload_escapes_the_credentials() {
    let poc = DahuaWeakPassword::new(&test_config());
    let probe = poc.login_probe("10.0.0.1", 80, "ad\"min", "p\\a\tss");
    let body = probe.body.unwrap();
    assert!(body.contains("\"password\":\"p\\\\a\\tss\""));
    assert!(body.contains("\"userName\":\"ad\\\"min\""));
}

#[test]
fn hikvision_judges_the_user_check_markers() {
    let poc = HikvisionWeakPassword::new(&test_config());
    let good = "<userCheck><statusValue>200</statusValue></userCheck>";
    assert!(poc.verify_success(200, good));
    assert!(!poc.verify_success(404, good));
    assert!(!poc.verify_success(200, "<statusValue>200</statusValue>"));
    assert!(!poc.verify_success(200, "<userCheck><statusValue>401</statusValue></userCheck>"));
    let probe = poc.login_probe("10.0.0.1", 81, "admin", "admin");
    assert_eq!(probe.url, "http://10.0.0.1:81/ISAPI/Security/userCheck");
    assert!(probe.body.is_none());
}

#[test]
fn hikvision_counts_channels_from_the_listing() {
    let poc = HikvisionWeakPassword::new(&test_config());
    assert_eq!(
        poc.parse_channels("<list><id>1</id><id>2</id><id>3</id></list>"),
        3
    );
    // no channels described: one is assumed
    assert_eq!(poc.parse_channels("<list></list>"), 1);
}

fn result_for(poc: &dyn Poc) -> PocResult {
    poc.make_result("10.0.0.1", 8080, "admin", "admin12345")
}

#[test]
fn dahua_plans_one_capture() {
    let config = test_config();
    let poc = DahuaWeakPassword::new(&config);
    let result = result_for(&poc);
    assert_eq!(result.product, "dahua");
    assert_eq!(result.vul_name, "dahua-weak-password");
    assert!(poc.channels_probe(&result).is_none());
    let plan = poc.snapshot_requests(&result, 5, &config);
    assert_eq!(plan.len(), 1);
    assert_eq!(plan[0].url, "http://10.0.0.1:8080/cgi-bin/snapshot.cgi");
    assert_eq!(plan[0].file_name, "10.0.0.1-8080-admin-admin12345.jpg");
}

#[test]
fn hikvision_plans_one_capture_per_channel() {
    let config = test_config();
    let poc = HikvisionWeakPassword::new(&config);
    let result = result_for(&poc);
    let channels = poc.channels_probe(&result).unwrap();
    assert_eq!(channels.url, "http://10.0.0.1:8080/ISAPI/Image/channels");
    let plan = poc.snapshot_requests(&result, 2, &config);
    assert_eq!(plan.len(), 2);
    assert_eq!(
        plan[0].url,
        "http://10.0.0.1:8080/ISAPI/Streaming/channels/101/picture"
    );
    assert_eq!(
        plan[0].file_name,
        "10.0.0.1-8080-channel1-admin-admin12345.jpg"
    );
    assert_eq!(
        plan[1].url,
        "http://10.0.0.1:8080/ISAPI/Streaming/channels/201/picture"
    );
    assert_eq!(
        plan[1].file_name,
        "10.0.0.1-8080-channel2-admin-admin12345.jpg"
    );
}

#[test]
fn base_poc_confirms_nothing_and_plans_nothing() {
    let config = test_config();
    let poc = BasePoc::new("noop", "none");
    assert_eq!(poc.name(), "noop");
    assert_eq!(poc.product(), "none");
    assert!(!poc.verify_success(200, "anything"));
    let result = result_for(&poc);
    assert!(poc.snapshot_requests(&result, 3, &config).is_empty());
}

#[test]
fn registry_maps_products_to_their_verifiers() {
    let dict = get_poc_dict(&test_config());
    let dahua = dict.get("dahua").unwrap();
    assert_eq!(dahua.pocs.len(), 1);
    assert_eq!(dahua.pocs[0].name(), "dahua-weak-password");
    let hik = dict.get("hikvision").unwrap();
    assert_eq!(hik.pocs[0].name(), "hikvision-weak-password");
    assert!(dict.get("unknown-product").is_none());
}

#[test]
fn credential_search_order_is_users_then_passwords() {
    let config = test_config();
    let pairs = credential_pairs(&config.users, &config.passwords);
    assert_eq!(pairs.len(), 6);
    assert_eq!(pairs[0], ("admin".to_string(), "admin".to_string()));
    assert_eq!(pairs[1], ("admin".to_string(), "admin12345".to_string()));
    assert_eq!(pairs[5], ("admin".to_string(), "12345abc".to_string()));
}

#[test]
fn config_defaults() {
    let config = test_config();
    assert_eq!(config.ports.len(), 21);
    assert_eq!(config.ports[0], 80);
    assert_eq!(config.ports[20], 55555);
    assert_eq!(config.users, vec!["admin"]);
    assert_eq!(config.passwords.len(), 6);
    assert_eq!(config.th_num, 300);
    assert_eq!(config.timeout, 3);
    assert_eq!(config.vulnerable, "results.csv");
    assert_eq!(config.not_vulnerable, "not_vulnerable.csv");
    assert_eq!(config.snapshots, "snapshots");
    assert_eq!(config.log, "log.txt");
}

#[test]
fn config_collects_distinct_products() {
    let rules = vec![
        Rule { product: "dahua".into(), path: "/".into(), val: "title=`d`".into() },
        Rule { product: "hikvision".into(), path: "/".into(), val: "title=`h`".into() },
        Rule { product: "dahua".into(), path: "/x".into(), val: "body=`d`".into() },
    ];
    let config = Config::new(
        "in".to_string(),
        "out".to_string(),
        Some(vec![80]),
        Some(8),
        Some(5),
        true,
        true,
        rules,
    );
    assert_eq!(config.product, vec!["dahua", "hikvision"]);
    assert_eq!(config.ports, vec![80]);
    assert_eq!(config.th_num, 8);
    assert_eq!(config.timeout, 5);
    assert!(config.disable_snapshot);
}
