use ingram::net::TargetStream;
use ingram::poc::PocResult;
use ingram::session::{
    checkpoint_line, not_vulnerable_line, session_key, vulnerable_line, Data,
};

#[test]
fn session_key_hashes_the_pairing() {
    // md5 of "targets.txtout"
    assert_eq!(
        session_key("targets.txt", "out"),
        "b4c0c719d00db6f225ef6386afd0ada3"
    );
    assert_ne!(session_key("targets.txt", "out"), session_key("targets.txt", "elsewhere"));
}

#[test]
fn checkpoint_renders_the_counters() {
    assert_eq!(checkpoint_line(40, 3, 125), "40,3,125");
    assert_eq!(checkpoint_line(0, 0, 0), "0,0,0");
}

#[test]
fn checkpoint_round_trip_restores_the_counters() {
    let mut data = Data::new(session_key("in", "out"), 0);
    data.load_checkpoint_line(&checkpoint_line(40, 3, 125));
    assert_eq!(data.get_done(), 40);
    assert_eq!(data.get_found(), 3);
}

#[test]
fn restart_resumes_from_the_done_offset() {
    // done=40, found=3 persisted; a restart with the same input resumes the
    // stream at offset 40 and keeps found=3 before any new result
    let mut data = Data::new(session_key("in", "out"), 0);
    data.load_checkpoint_line("40,3,125");
    assert_eq!(data.get_found(), 3);

    let mut stream = TargetStream::new(vec!["10.0.0.0/26".to_string()]);
    stream.skip(data.get_done());
    assert_eq!(stream.next().unwrap(), "10.0.0.40");
}

#[test]
fn malformed_checkpoints_are_ignored_field_by_field() {
    let mut data = Data::new("k".to_string(), 0);
    data.load_checkpoint_line("12,bogus,0");
    assert_eq!(data.get_done(), 12);
    assert_eq!(data.get_found(), 0);
    data.load_checkpoint_line("too,short");
    assert_eq!(data.get_done(), 12);
}

#[test]
fn tally_skips_blanks_and_comments() {
    let mut data = Data::new("k".to_string(), 0);
    data.tally_spec_line("");
    data.tally_spec_line("   ");
    data.tally_spec_line("# 10.0.0.0/24");
    assert_eq!(data.get_total(), 0);
    data.tally_spec_line("  10.0.0.0/30  ");
    assert_eq!(data.get_total(), 4);
    data.tally_spec_line("192.168.0.1");
    assert_eq!(data.get_total(), 5);
    assert!(!data.is_finished());
}

#[test]
fn counters_step_and_finish() {
    let mut data = Data::new("k".to_string(), 0);
    data.tally_spec_line("10.0.0.1-10.0.0.2");
    data.add_done();
    data.add_found();
    data.add_done();
    assert_eq!(data.get_done(), 2);
    assert_eq!(data.get_found(), 1);
    assert!(data.is_finished());
}

#[test]
fn checkpoints_flush_on_the_batch_boundary() {
    let mut data = Data::new("k".to_string(), 100);
    for _ in 0..50 {
        data.tally_spec_line("10.0.0.1");
    }
    for _ in 0..19 {
        data.add_done();
    }
    assert!(data.record_state(107).is_none());
    data.add_done();
    assert_eq!(data.record_state(107).unwrap(), "20,0,7");
}

#[test]
fn result_lines_are_comma_records() {
    let result = PocResult {
        ip: "10.0.0.1".to_string(),
        port: 8080,
        product: "dahua".to_string(),
        user: "admin".to_string(),
        password: "admin12345".to_string(),
        vul_name: "dahua-weak-password".to_string(),
    };
    assert_eq!(
        vulnerable_line(&result),
        "10.0.0.1,8080,dahua,admin,admin12345,dahua-weak-password"
    );
    assert_eq!(
        not_vulnerable_line("10.0.0.2", 80, "hikvision"),
        "10.0.0.2,80,hikvision"
    );
}
