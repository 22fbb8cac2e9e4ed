use web_automator::config::LoopConfig;
use web_automator::planner::plan_execution;

fn range(times: u32, from: u32, to: u32) -> LoopConfig {
    LoopConfig { times, from_action_num: from, to_action_num: to }
}

#[test]
fn no_loops_runs_each_instruction_once() {
    assert_eq!(plan_execution(4, &vec![]), vec![0, 1, 2, 3]);
}

#[test]
fn empty_instruction_list_gives_empty_order() {
    assert_eq!(plan_execution(0, &vec![range(3, 0, 1)]), Vec::<usize>::new());
}

#[test]
fn zero_times_range_is_skipped() {
    let order = plan_execution(5, &vec![range(0, 1, 2)]);
    assert_eq!(order, vec![0, 3, 4]);
    assert!(order.iter().all(|&i| i < 1 || i > 2));
}

#[test]
fn range_repeats_block_k_times_then_resumes() {
    let order = plan_execution(5, &vec![range(3, 1, 2)]);
    assert_eq!(order, vec![0, 1, 2, 1, 2, 1, 2, 3, 4]);
    assert_eq!(order.len(), 1 + 3 * 2 + 2);
}

#[test]
fn single_index_range() {
    assert_eq!(plan_execution(3, &vec![range(2, 2, 2)]), vec![0, 1, 2, 2]);
}

#[test]
fn planning_twice_gives_the_same_order() {
    let loops = vec![range(2, 0, 1), range(0, 3, 3), range(4, 4, 5)];
    let first = plan_execution(7, &loops);
    let second = plan_execution(7, &loops);
    assert_eq!(first, second);
    assert_eq!(first, vec![0, 1, 0, 1, 2, 4, 5, 4, 5, 4, 5, 4, 5, 6]);
}

#[test]
fn first_range_with_a_shared_start_wins() {
    let order = plan_execution(4, &vec![range(2, 1, 1), range(5, 1, 2)]);
    assert_eq!(order, vec![0, 1, 1, 2, 3]);
}

#[test]
fn range_past_the_end_keeps_only_existing_indices() {
    assert_eq!(plan_execution(3, &vec![range(2, 1, 9)]), vec![0, 1, 2, 1, 2]);
}
