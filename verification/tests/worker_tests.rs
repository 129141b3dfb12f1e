use rtracer::Worker;
use rtracer::WorkerState;

#[test]
fn create_generator() {
    let vals = vec![1, 2, 3];
    let mut worker = Worker::new(vals, |val| val + 1, 2);

    let mut values: Vec<i32> = Vec::new();
    loop {
        match worker.fetch() {
            WorkerState::Values(mut batch) => {
                assert!(
                    !batch.is_empty(),
                    "Shouldn't be complete until the values are collected"
                );
                values.append(&mut batch);
            }
            WorkerState::Complete => break,
        }
    }

    values.sort();
    assert_eq!(values, vec![2, 3, 4]);

    let complete_msg = worker.fetch();
    assert_eq!(complete_msg, WorkerState::Complete);
}

#[test]
fn worker_round_trip() {
    let worker = Worker::new(vec![1, 2, 3], |x| x + 1, 2);

    let results = worker.run_to_completion();

    assert_eq!(results, vec![2, 3, 4]);
}

#[test]
fn the_first_chunks_hold_chunk_size_items_and_the_last_the_rest() {
    let mut worker = Worker::new(vec![10, 20, 30, 40, 50], |x| x * 2, 2);

    assert_eq!(worker.fetch(), WorkerState::Values(vec![20, 40]));
    assert_eq!(worker.fetch(), WorkerState::Values(vec![60, 80]));
    assert_eq!(worker.fetch(), WorkerState::Values(vec![100]));
    assert_eq!(worker.fetch(), WorkerState::Complete);
}

#[test]
fn cancellation_takes_effect_at_the_next_chunk_boundary() {
    let mut worker = Worker::new(vec![1, 2, 3, 4], |x| x + 1, 2);

    // The first chunk completes and its results stay delivered.
    assert_eq!(worker.fetch(), WorkerState::Values(vec![2, 3]));

    worker.cancel();

    // No further chunk starts once cancellation is signalled.
    assert_eq!(worker.fetch(), WorkerState::Complete);
    assert_eq!(worker.fetch(), WorkerState::Complete);
}

#[test]
fn a_worker_with_no_items_completes_at_once() {
    let mut worker: Worker<i32, i32, _> = Worker::new(vec![], |x: i32| x + 1, 3);

    assert_eq!(worker.fetch(), WorkerState::Complete);
}
