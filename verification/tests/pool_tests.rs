use vibereport::pool::BatchRun;
use vibereport::pool::FailReason;
use vibereport::pool::WorkerPool;

#[test]
fn pool_hands_out_at_most_its_capacity() {
    let mut pool = WorkerPool::new(2);
    assert!(pool.try_acquire());
    assert!(pool.try_acquire());
    assert!(!pool.try_acquire());
    pool.release();
    assert!(pool.try_acquire());
    assert!(!pool.try_acquire());
}

#[test]
fn batch_never_runs_more_units_than_the_pool_allows() {
    // Five units against a pool of capacity three: the fourth start is
    // refused until one unit finishes.
    let mut run = BatchRun::new(3, 5);
    assert_eq!(run.len(), 5);
    assert!(run.try_start(0));
    assert!(run.try_start(1));
    assert!(run.try_start(2));
    assert!(!run.try_start(3));

    // Unit 0 fails its clone; its permit frees a slot for unit 3.
    run.finish_clone(0, Err(FailReason::CloneTimeout));
    assert!(run.try_start(3));
    assert!(!run.try_start(4));

    // Unit 1 clones fine and moves on to analysis, still holding its
    // permit; unit 4 stays blocked.
    run.finish_clone(1, Ok(()));
    assert!(!run.try_start(4));

    // Only when unit 1 finishes analyzing does unit 4 get to run.
    run.finish_analyze(1, None);
    assert!(run.try_start(4));
}

#[test]
fn failed_units_release_their_permits() {
    let mut run = BatchRun::new(1, 3);
    assert!(run.try_start(0));
    assert!(!run.try_start(1));
    run.finish_clone(0, Ok(()));
    run.finish_analyze(0, Some(FailReason::AnalyzeTimeout));
    assert!(run.try_start(1));
    run.finish_clone(1, Err(FailReason::CloneFailed));
    assert!(run.try_start(2));
}
