use ray_tracer::cli::Args;
use ray_tracer::schedule;

#[test]
fn worker_count_keeps_one_cpu_free() {
    assert_eq!(schedule::worker_count(8), 7);
    assert_eq!(schedule::worker_count(2), 1);
}

#[test]
fn worker_count_is_at_least_one() {
    assert_eq!(schedule::worker_count(0), 1);
    assert_eq!(schedule::worker_count(1), 1);
}

#[test]
fn this_machine_gets_at_least_one_worker() {
    assert!(schedule::available_worker_count() >= 1);
}

#[test]
fn rows_are_dispatched_top_to_bottom() {
    assert_eq!(schedule::dispatch_order(5), vec![4, 3, 2, 1, 0]);
    assert_eq!(schedule::dispatch_order(1), vec![0]);
    assert_eq!(schedule::dispatch_order(0), Vec::<usize>::new());
}

#[test]
fn default_render_is_threaded() {
    let args = Args::default();
    assert!(!args.single_thread);
}
