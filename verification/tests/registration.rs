use callback_registry::registry::{run_program, Policy, Registry};

const MY_SYSTEM: u64 = 7;

#[test]
fn duplicate_registration_executes_three_times() {
    let mut reg = Registry::new(Policy::AllowDuplicates);
    reg.register(MY_SYSTEM);
    reg.register(MY_SYSTEM);
    reg.register(MY_SYSTEM);
    assert_eq!(reg.executions_per_tick(MY_SYSTEM), 3);
    assert_eq!(reg.tick(), vec![MY_SYSTEM, MY_SYSTEM, MY_SYSTEM]);
}

#[test]
fn deduplicated_registration_executes_once() {
    let mut reg = Registry::new(Policy::Deduplicate);
    reg.register(MY_SYSTEM);
    reg.register(MY_SYSTEM);
    reg.register(MY_SYSTEM);
    assert_eq!(reg.executions_per_tick(MY_SYSTEM), 1);
    assert_eq!(reg.tick(), vec![MY_SYSTEM]);
}

#[test]
fn both_policies_run_to_completion() {
    let regs = vec![MY_SYSTEM, MY_SYSTEM, MY_SYSTEM];
    let allowed = run_program(Policy::AllowDuplicates, &regs, 1);
    let deduped = run_program(Policy::Deduplicate, &regs, 1);
    assert_eq!(allowed.len(), 3);
    assert_eq!(deduped.len(), 1);
}

#[test]
fn registration_order_is_irrelevant() {
    let orders = [
        vec![MY_SYSTEM, MY_SYSTEM, 3],
        vec![MY_SYSTEM, 3, MY_SYSTEM],
        vec![3, MY_SYSTEM, MY_SYSTEM],
    ];
    for policy in [Policy::AllowDuplicates, Policy::Deduplicate] {
        let mut reg = Registry::new(policy);
        for h in &orders[0] {
            reg.register(*h);
        }
        let expected_my_system = reg.executions_per_tick(MY_SYSTEM);
        let expected_other = reg.executions_per_tick(3);
        for order in &orders[1..] {
            let mut other = Registry::new(policy);
            for h in order {
                other.register(*h);
            }
            assert_eq!(other.executions_per_tick(MY_SYSTEM), expected_my_system);
            assert_eq!(other.executions_per_tick(3), expected_other);
        }
    }
}

#[test]
fn reruns_print_identical_output() {
    let regs = vec![MY_SYSTEM, MY_SYSTEM, MY_SYSTEM];
    for policy in [Policy::AllowDuplicates, Policy::Deduplicate] {
        let first = run_program(policy, &regs, 4);
        let second = run_program(policy, &regs, 4);
        assert_eq!(first, second);
    }
}

#[test]
fn empty_registry_prints_nothing() {
    let reg = Registry::new(Policy::AllowDuplicates);
    assert_eq!(reg.executions_per_tick(MY_SYSTEM), 0);
    assert_eq!(reg.tick(), Vec::<u64>::new());
    assert_eq!(reg.run(5), Vec::<u64>::new());
}

#[test]
fn zero_ticks_print_nothing() {
    let regs = vec![MY_SYSTEM, MY_SYSTEM, MY_SYSTEM];
    assert_eq!(run_program(Policy::AllowDuplicates, &regs, 0), Vec::<u64>::new());
}

#[test]
fn each_tick_repeats_the_schedule() {
    let regs = vec![MY_SYSTEM, MY_SYSTEM, MY_SYSTEM];
    let out = run_program(Policy::AllowDuplicates, &regs, 2);
    assert_eq!(out, vec![MY_SYSTEM; 6]);
}

#[test]
fn deduplication_keeps_first_occurrence_order() {
    let mut reg = Registry::new(Policy::Deduplicate);
    reg.register(3);
    reg.register(MY_SYSTEM);
    reg.register(3);
    assert_eq!(reg.tick(), vec![3, MY_SYSTEM]);
}

#[test]
fn is_registered_reports_membership() {
    let mut reg = Registry::new(Policy::AllowDuplicates);
    assert!(!reg.is_registered(MY_SYSTEM));
    reg.register(MY_SYSTEM);
    assert!(reg.is_registered(MY_SYSTEM));
    assert!(!reg.is_registered(3));
}
