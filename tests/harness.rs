use elephantry_benchmark::harness::{summarize, Action, Driver, Event, Operation, Summary};

#[test]
fn operations_in_order_with_their_setup() {
    let ops = Operation::all();
    let names: Vec<_> = ops.iter().map(|o| o.name()).collect();
    assert_eq!(
        names,
        vec!["query_one", "query_all", "insert_one", "insert_many", "fetch_first", "fetch_last", "one_relation", "all_relations"]
    );
    let users: Vec<_> = ops.iter().map(|o| o.seeded_users()).collect();
    assert_eq!(users, vec![1, 10_000, 0, 0, 10_000, 10_000, 300, 300]);
    let posts: Vec<_> = ops.iter().map(|o| o.seeded_posts()).collect();
    assert_eq!(posts, vec![0, 0, 0, 0, 0, 0, 30, 30]);
    let inserted: Vec<_> = ops.iter().map(|o| o.inserted_users()).collect();
    assert_eq!(inserted, vec![0, 0, 1, 25, 0, 0, 0, 0]);
}

fn run(driver: &mut Driver, mut outcome: impl FnMut(&Action) -> Event) -> Vec<Action> {
    let mut actions = Vec::new();
    loop {
        let a = driver.next_action();
        actions.push(a);
        if a == Action::Finish {
            return actions;
        }
        let e = outcome(&a);
        driver.on_event(e);
    }
}

#[test]
fn driver_walks_each_pair_through_its_stages() {
    let mut d = Driver::new(vec![Operation::QueryOne], 2, 2);
    let actions = run(&mut d, |_| Event::Succeeded);
    let q = Operation::QueryOne;
    assert_eq!(
        actions,
        vec![
            Action::Connect { adapter: 0 },
            Action::Setup { adapter: 0, users: 1, posts: 0 },
            Action::Trial { adapter: 0, operation: q },
            Action::Trial { adapter: 0, operation: q },
            Action::TearDown { adapter: 0 },
            Action::Connect { adapter: 1 },
            Action::Setup { adapter: 1, users: 1, posts: 0 },
            Action::Trial { adapter: 1, operation: q },
            Action::Trial { adapter: 1, operation: q },
            Action::TearDown { adapter: 1 },
            Action::Finish,
        ]
    );
}

#[test]
fn failed_setup_skips_the_adapter_for_the_rest_of_the_run() {
    let mut d = Driver::new(vec![Operation::QueryOne, Operation::OneRelation], 2, 1);
    let actions = run(&mut d, |a| match a {
        Action::Setup { adapter: 0, .. } => Event::Failed,
        _ => Event::Succeeded,
    });
    assert_eq!(
        actions,
        vec![
            Action::Connect { adapter: 0 },
            Action::Setup { adapter: 0, users: 1, posts: 0 },
            Action::Connect { adapter: 1 },
            Action::Setup { adapter: 1, users: 1, posts: 0 },
            Action::Trial { adapter: 1, operation: Operation::QueryOne },
            Action::TearDown { adapter: 1 },
            Action::Connect { adapter: 1 },
            Action::Setup { adapter: 1, users: 300, posts: 30 },
            Action::Trial { adapter: 1, operation: Operation::OneRelation },
            Action::TearDown { adapter: 1 },
            Action::Finish,
        ]
    );
}

#[test]
fn failed_trial_still_tears_down() {
    let mut d = Driver::new(vec![Operation::FetchLast, Operation::QueryAll], 1, 3);
    let actions = run(&mut d, |a| match a {
        Action::Trial { .. } => Event::Failed,
        _ => Event::Succeeded,
    });
    assert_eq!(
        actions,
        vec![
            Action::Connect { adapter: 0 },
            Action::Setup { adapter: 0, users: 10_000, posts: 0 },
            Action::Trial { adapter: 0, operation: Operation::FetchLast },
            Action::TearDown { adapter: 0 },
            Action::Finish,
        ]
    );
}

#[test]
fn failed_connection_ends_the_pair() {
    let mut d = Driver::new(vec![Operation::InsertOne], 1, 5);
    let actions = run(&mut d, |_| Event::Failed);
    assert_eq!(actions, vec![Action::Connect { adapter: 0 }, Action::Finish]);
}

#[test]
fn run_without_adapters_finishes_at_once() {
    let d = Driver::plan(0, 10);
    assert_eq!(d.next_action(), Action::Finish);
}

#[test]
fn full_plan_visits_every_operation() {
    let mut d = Driver::plan(1, 1);
    let actions = run(&mut d, |_| Event::Succeeded);
    let trials: Vec<_> = actions
        .iter()
        .filter_map(|a| match a {
            Action::Trial { operation, .. } => Some(*operation),
            _ => None,
        })
        .collect();
    assert_eq!(trials, Operation::all());
}

#[test]
fn summary_of_samples() {
    assert_eq!(
        summarize(&vec![30, 10, 20, 41]),
        Some(Summary { count: 4, total: 101, min: 10, max: 41, mean: 25 })
    );
    assert_eq!(summarize(&vec![7]), Some(Summary { count: 1, total: 7, min: 7, max: 7, mean: 7 }));
    assert_eq!(summarize(&vec![]), None);
}

#[test]
fn summary_of_largest_samples_does_not_overflow() {
    let s = summarize(&vec![u64::MAX, u64::MAX, u64::MAX]).unwrap();
    assert_eq!(s.total, 3 * u64::MAX as u128);
    assert_eq!(s.mean, u64::MAX);
}

#[test]
fn failed_tear_down_skips_the_adapter_afterwards() {
    let mut d = Driver::new(vec![Operation::QueryOne, Operation::QueryAll], 1, 1);
    let actions = run(&mut d, |a| match a {
        Action::TearDown { .. } => Event::Failed,
        _ => Event::Succeeded,
    });
    assert_eq!(
        actions,
        vec![
            Action::Connect { adapter: 0 },
            Action::Setup { adapter: 0, users: 1, posts: 0 },
            Action::Trial { adapter: 0, operation: Operation::QueryOne },
            Action::TearDown { adapter: 0 },
            Action::Finish,
        ]
    );
}
