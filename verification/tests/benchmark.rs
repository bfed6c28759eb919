use churn_bench::bench::{churn, fill, run};
use churn_bench::request::Request;

fn nums(q: &std::collections::VecDeque<Request>) -> Vec<i32> {
    let mut v = Vec::new();
    for r in q.iter() {
        v.push(r.num);
    }
    v
}

#[test]
fn request_new_sets_index_and_reserves_empty_payload() {
    let r = Request::new(5);
    assert_eq!(r.num, 5);
    assert_eq!(r.payload.len(), 0);
    assert!(r.payload.capacity() >= 1000000);
}

#[test]
fn fill_builds_requests_in_insertion_order() {
    let q = fill(4);
    assert_eq!(nums(&q), vec![0, 1, 2, 3]);
    for r in q.iter() {
        assert!(r.payload.is_empty());
    }
}

#[test]
fn fill_zero_and_negative_sizes_leave_the_queue_empty() {
    assert_eq!(fill(0).len(), 0);
    assert_eq!(fill(-3).len(), 0);
}

#[test]
fn churn_keeps_the_length_of_a_nonempty_queue() {
    let mut q = fill(3);
    for count in [0, 1, 2, 3, 4, 7] {
        churn(&mut q, count);
        assert_eq!(q.len(), 3);
    }
}

#[test]
fn churn_rotates_oldest_out_and_newest_in() {
    let mut q = fill(2);
    churn(&mut q, 1);
    assert_eq!(nums(&q), vec![1, 0]);
    let mut q = fill(2);
    churn(&mut q, 2);
    assert_eq!(nums(&q), vec![0, 1]);
}

#[test]
fn churn_negative_count_does_nothing() {
    let mut q = fill(2);
    churn(&mut q, -5);
    assert_eq!(nums(&q), vec![0, 1]);
}

#[test]
fn churn_on_an_empty_queue_settles_at_length_one() {
    let mut q = fill(0);
    churn(&mut q, 3);
    assert_eq!(nums(&q), vec![2]);
    let mut q = fill(0);
    churn(&mut q, 1);
    assert_eq!(nums(&q), vec![0]);
}

#[test]
fn run_example_three_iterations_buffer_two() {
    let q = run(3, 2);
    assert_eq!(nums(&q), vec![1, 2]);
    for r in q.iter() {
        assert!(r.payload.is_empty());
    }
}

#[test]
fn run_zero_iterations_zero_buffer_is_empty() {
    let q = run(0, 0);
    assert_eq!(q.len(), 0);
}

#[test]
fn run_more_iterations_than_buffer() {
    let q = run(5, 3);
    assert_eq!(nums(&q), vec![2, 3, 4]);
}

#[test]
fn run_fewer_iterations_than_buffer() {
    let q = run(2, 5);
    assert_eq!(nums(&q), vec![2, 3, 4, 0, 1]);
}
