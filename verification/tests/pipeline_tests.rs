use ingram::pipeline::SnapshotPipeline;

#[test]
fn queue_is_bounded_at_twice_the_workers() {
    let mut p = SnapshotPipeline::new(2, 0);
    assert!(p.is_empty());
    for _ in 0..4 {
        assert!(p.can_put());
        p.put();
    }
    // the queue is full: a producer would block here until a worker dequeues
    assert!(!p.can_put());
    p.start_job();
    assert!(p.can_put());
}

#[test]
fn pending_reaches_zero_exactly_when_every_job_ran() {
    let mut p = SnapshotPipeline::new(4, 0);
    for _ in 0..3 {
        p.put();
    }
    assert_eq!(p.get_task_count(), 3);
    for executed in 0..3u64 {
        assert!(!p.is_empty());
        p.start_job();
        // taken but still executing: not drained yet
        assert!(executed < 2 || !p.is_empty());
        p.finish_job(1);
    }
    assert!(p.is_empty());
    assert_eq!(p.get_task_count(), 0);
    assert_eq!(p.get_done(), 3);
}

#[test]
fn zero_queue_depth_is_not_completion() {
    let mut p = SnapshotPipeline::new(4, 0);
    p.put();
    p.start_job();
    // the queue itself is empty, but the job is still executing
    assert!(!p.is_empty());
    p.finish_job(0);
    assert!(p.is_empty());
}

#[test]
fn artifact_count_seeds_from_disk_and_accumulates() {
    let mut p = SnapshotPipeline::new(1, 7);
    assert_eq!(p.get_done(), 7);
    p.put();
    p.start_job();
    p.finish_job(3);
    assert_eq!(p.get_done(), 10);
}
