use store_probe::protocol::{Command, Form};
use store_probe::scenario::{schedule, Scenario, SHUFFLES, SWEEP_SECONDS};
use store_probe::steps::{plan, Step};
use store_probe::store::MemoryStore;

#[test]
fn schedule_runs_every_scenario_once_in_order() {
    assert_eq!(
        schedule(),
        vec![
            Scenario::BinarySafety,
            Scenario::EmptyValue,
            Scenario::DenseOrdering,
            Scenario::OptionalOrdering,
            Scenario::DefaultOrdering,
            Scenario::Overwrite,
            Scenario::ConditionalSet,
            Scenario::BatchTtl,
            Scenario::ScriptTtl,
            Scenario::BatchSweep,
            Scenario::ScriptSweepEmpty,
            Scenario::ScriptSweepFilled,
        ]
    );
}

#[test]
fn counts_of_a_run() {
    assert_eq!(SHUFFLES, 100);
    assert_eq!(SWEEP_SECONDS, 20);
}

#[test]
fn only_two_scenarios_build_on_what_the_store_holds() {
    for scenario in schedule() {
        let want = scenario != Scenario::ScriptTtl && scenario != Scenario::ScriptSweepEmpty;
        assert_eq!(scenario.starts_clean(), want);
    }
}

#[test]
fn batch_shapes() {
    assert_eq!(Scenario::DenseOrdering.batch_shape(), Some((10000, 0)));
    assert_eq!(Scenario::OptionalOrdering.batch_shape(), Some((5000, 5000)));
    assert_eq!(Scenario::DefaultOrdering.batch_shape(), Some((5000, 5000)));
    assert_eq!(Scenario::BatchSweep.batch_shape(), Some((10000, 0)));
    assert_eq!(Scenario::ScriptSweepEmpty.batch_shape(), Some((10000, 0)));
    assert_eq!(Scenario::ScriptSweepFilled.batch_shape(), Some((10000, 0)));
    assert_eq!(Scenario::BinarySafety.batch_shape(), None);
    assert_eq!(Scenario::ScriptTtl.batch_shape(), None);
}

#[test]
fn sweep_plans() {
    assert_eq!(Scenario::BatchSweep.sweep_plan(), Some((Form::Batch, vec![])));
    assert_eq!(Scenario::ScriptSweepEmpty.sweep_plan(), Some((Form::Script, vec![])));
    assert_eq!(Scenario::ScriptSweepFilled.sweep_plan(), Some((Form::Script, vec![1])));
    assert_eq!(Scenario::DenseOrdering.sweep_plan(), None);
    assert_eq!(Scenario::Overwrite.sweep_plan(), None);
}

#[test]
fn headers_announce_the_contract() {
    assert_eq!(
        Scenario::BinarySafety.header(),
        "===== A KEY AND A VALUE MAY BOTH BE BINARY ====="
    );
    assert_eq!(Scenario::ConditionalSet.header(), "===== SETNX DOES NOT OVERRWRITE A VALUE =====");
    let mut seen = std::collections::HashSet::new();
    for scenario in schedule() {
        assert!(seen.insert(scenario.header()));
    }
}

#[test]
fn conditional_set_scenario_step_by_step() {
    assert_eq!(
        plan(Scenario::ConditionalSet),
        vec![
            Step::Store { key: vec![0], value: vec![1] },
            Step::ExpectValue { key: vec![0], value: vec![1] },
            Step::Run { commands: vec![Command::SetIfNotExists { key: vec![0], value: vec![2] }] },
            Step::ExpectValue { key: vec![0], value: vec![1] },
        ]
    );
}

#[test]
fn batch_ttl_scenario_step_by_step() {
    assert_eq!(
        plan(Scenario::BatchTtl),
        vec![
            Step::Store { key: vec![0], value: vec![1] },
            Step::ExpectValue { key: vec![0], value: vec![1] },
            Step::ExpectNoExpiry { key: vec![0] },
            Step::Run {
                commands: vec![
                    Command::SetIfNotExists { key: vec![0], value: vec![2] },
                    Command::Expire { key: vec![0], seconds: 20 },
                ]
            },
            Step::ExpectValue { key: vec![0], value: vec![1] },
            Step::ExpectTtl { key: vec![0], form: Form::Batch, held: vec![1] },
        ]
    );
}

#[test]
fn empty_value_scenario_uses_a_text_key() {
    assert_eq!(
        plan(Scenario::EmptyValue),
        vec![
            Step::Store { key: b"key".to_vec(), value: vec![] },
            Step::ExpectValue { key: b"key".to_vec(), value: vec![] },
        ]
    );
}

#[test]
fn script_scenario_has_both_branches() {
    let steps = plan(Scenario::ScriptTtl);
    assert_eq!(steps.len(), 9);
    assert_eq!(steps[4], Step::ExpectTtl { key: vec![0], form: Form::Script, held: vec![1] });
    assert_eq!(steps[7], Step::ExpectTtl { key: vec![0], form: Form::Script, held: vec![] });
    assert_eq!(
        steps[3],
        Step::Run { commands: vec![Command::ExpireIfEmpty { key: vec![0], seconds: 5 }] }
    );
}

#[test]
fn batch_scenarios_have_no_fixed_steps() {
    assert!(plan(Scenario::DenseOrdering).is_empty());
    assert!(plan(Scenario::ScriptSweepFilled).is_empty());
}

#[test]
fn every_scenario_passes_on_the_memory_store() {
    let mut store = MemoryStore::new();
    for scenario in schedule() {
        if scenario.starts_clean() {
            store.flush_all();
        }
        assert!(store.rehearse(&plan(scenario)), "{:?}", scenario);
    }
}

#[test]
fn every_scenario_passes_on_a_store_that_holds_the_key() {
    for scenario in schedule() {
        let mut store = MemoryStore::new();
        store.set(&vec![0], &vec![9, 9]);
        store.expire(&vec![0], 77);
        assert!(store.rehearse(&plan(scenario)), "{:?}", scenario);
    }
}

#[test]
fn rehearse_stops_at_a_broken_expectation() {
    let mut store = MemoryStore::new();
    let steps = vec![
        Step::Store { key: vec![0], value: vec![1] },
        Step::ExpectValue { key: vec![0], value: vec![2] },
        Step::Store { key: vec![5], value: vec![5] },
    ];
    assert!(!store.rehearse(&steps));
    assert_eq!(store.get(&vec![5]), None);
}

#[test]
fn perform_judges_each_expectation() {
    let mut store = MemoryStore::new();
    assert!(store.perform(&Step::Store { key: vec![0], value: vec![] }));
    assert!(store.perform(&Step::ExpectValue { key: vec![0], value: vec![] }));
    assert!(!store.perform(&Step::ExpectValue { key: vec![1], value: vec![] }));
    assert!(store.perform(&Step::ExpectNoExpiry { key: vec![0] }));
    assert!(!store.perform(&Step::ExpectNoExpiry { key: vec![1] }));
    assert!(!store.perform(&Step::ExpectTtl { key: vec![0], form: Form::Batch, held: vec![] }));
    assert!(store.perform(&Step::Run {
        commands: vec![Command::ExpireIfEmpty { key: vec![0], seconds: 5 }]
    }));
    assert!(store.perform(&Step::ExpectTtl { key: vec![0], form: Form::Script, held: vec![] }));
    assert!(!store.perform(&Step::ExpectNoExpiry { key: vec![0] }));
}

#[test]
fn judges_work_on_plain_replies() {
    let value = Step::ExpectValue { key: vec![0], value: vec![1] };
    assert!(value.judge_value(&Some(vec![1])));
    assert!(!value.judge_value(&Some(vec![2])));
    assert!(!value.judge_value(&None));
    assert!(value.judge_ttl(123));
    let none = Step::ExpectNoExpiry { key: vec![0] };
    assert!(none.judge_ttl(-1));
    assert!(!none.judge_ttl(-2));
    assert!(!none.judge_ttl(3));
    assert!(none.judge_value(&None));
    let owed = Step::ExpectTtl { key: vec![0], form: Form::Script, held: vec![1] };
    assert!(owed.judge_ttl(-1));
    assert!(!owed.judge_ttl(5));
}
