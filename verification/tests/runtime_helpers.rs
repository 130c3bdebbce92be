use obs_conventions::runtime::Runtime;
use std::cell::Cell;

#[test]
fn run_with_obs_runs_the_closure() {
    let runtime = Runtime {};
    let hit = Cell::new(false);
    runtime.run_with_obs(|| hit.set(true));
    assert!(hit.get());
}

#[test]
fn run_with_obs_result_hands_back_the_result() {
    let runtime = Runtime {};
    let r = runtime.run_with_obs_result(|| 42);
    assert_eq!(r, 42);
}
