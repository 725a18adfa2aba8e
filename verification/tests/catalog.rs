use sysinfo::catalog::{counter_path, decimal, subscription_outcomes, subscription_plan, Catalog};
use sysinfo::platform::Subscription;
use sysinfo::session::{CounterHandle, CounterKey};

#[test]
fn translate_finds_the_localized_counterpart() {
    let catalog = Catalog::new(vec![
        "Processor".to_string(),
        "Prozessor".to_string(),
        "% Processor Time".to_string(),
        "Prozessorzeit (%)".to_string(),
    ]);
    assert_eq!(catalog.translate("Processor"), Some("Prozessor".to_string()));
    assert_eq!(catalog.translate("% Processor Time"), Some("Prozessorzeit (%)".to_string()));
}

#[test]
fn translate_misses_names_that_the_table_lacks() {
    let catalog = Catalog::new(vec!["Processor".to_string(), "Processeur".to_string()]);
    assert_eq!(catalog.translate("Memory"), None);
    assert_eq!(catalog.translate(""), None);
    assert_eq!(catalog.translate("processor"), None);
    assert_eq!(Catalog::new(Vec::new()).translate("Processor"), None);
}

#[test]
fn translate_looks_at_canonical_names_only() {
    // "Prozessor" is a localized name here, not a canonical one
    let catalog = Catalog::new(vec![
        "Processor".to_string(),
        "Prozessor".to_string(),
        "System".to_string(),
        "Processor".to_string(),
    ]);
    assert_eq!(catalog.translate("Prozessor"), None);
    assert_eq!(catalog.translate("System"), Some("Processor".to_string()));
    assert_eq!(catalog.translate("Processor"), Some("Prozessor".to_string()));
}

#[test]
fn translate_takes_the_first_matching_pair() {
    let catalog = Catalog::new(vec![
        "Processor".to_string(),
        "first".to_string(),
        "Processor".to_string(),
        "second".to_string(),
    ]);
    assert_eq!(catalog.translate("Processor"), Some("first".to_string()));
}

#[test]
fn translate_passes_over_a_trailing_entry() {
    let catalog = Catalog::new(vec![
        "System".to_string(),
        "Systeme".to_string(),
        "Processor".to_string(),
    ]);
    assert_eq!(catalog.translate("Processor"), None);
    assert_eq!(catalog.translate("System"), Some("Systeme".to_string()));
    assert_eq!(Catalog::new(vec!["Processor".to_string()]).translate("Processor"), None);
}

#[test]
fn counter_path_has_the_subscription_form() {
    assert_eq!(
        counter_path("Processor", "_Total", "% Processor Time"),
        "\\Processor(_Total)\\% Processor Time"
    );
    assert_eq!(counter_path("Prozessor", "3", "Prozessorzeit (%)"), "\\Prozessor(3)\\Prozessorzeit (%)");
    assert_eq!(counter_path("", "", ""), "\\()\\");
}

#[test]
fn decimal_writes_numbers_without_leading_zeros() {
    assert_eq!(decimal(0), "0");
    assert_eq!(decimal(7), "7");
    assert_eq!(decimal(9), "9");
    assert_eq!(decimal(10), "10");
    assert_eq!(decimal(99), "99");
    assert_eq!(decimal(100), "100");
    assert_eq!(decimal(1_234_567_890), "1234567890");
    assert_eq!(decimal(usize::MAX), usize::MAX.to_string());
}

#[test]
fn plan_subscribes_the_aggregate_and_every_core() {
    let catalog = Catalog::new(vec![
        "Processor".to_string(),
        "Processeur".to_string(),
        "% Processor Time".to_string(),
        "% Temps processeur".to_string(),
    ]);
    let plan = subscription_plan(&catalog, 2);
    assert_eq!(plan.len(), 3);
    assert_eq!(plan[0].key, CounterKey::Total);
    assert_eq!(plan[0].path, "\\Processeur(_Total)\\% Temps processeur");
    assert_eq!(plan[1].key, CounterKey::Core(0));
    assert_eq!(plan[1].path, "\\Processeur(0)\\% Temps processeur");
    assert_eq!(plan[2].key, CounterKey::Core(1));
    assert_eq!(plan[2].path, "\\Processeur(1)\\% Temps processeur");
}

#[test]
fn plan_numbers_cores_in_decimal() {
    let catalog = Catalog::new(vec![
        "Processor".to_string(),
        "Processor".to_string(),
        "% Processor Time".to_string(),
        "% Processor Time".to_string(),
    ]);
    let plan = subscription_plan(&catalog, 12);
    assert_eq!(plan.len(), 13);
    assert_eq!(plan[11].key, CounterKey::Core(10));
    assert_eq!(plan[11].path, "\\Processor(10)\\% Processor Time");
    assert_eq!(plan[12].key, CounterKey::Core(11));
    assert_eq!(plan[12].path, "\\Processor(11)\\% Processor Time");
}

#[test]
fn plan_without_cores_subscribes_the_aggregate_only() {
    let catalog = Catalog::new(vec![
        "Processor".to_string(),
        "Processor".to_string(),
        "% Processor Time".to_string(),
        "% Processor Time".to_string(),
    ]);
    let plan = subscription_plan(&catalog, 0);
    assert_eq!(plan.len(), 1);
    assert_eq!(plan[0].key, CounterKey::Total);
}

#[test]
fn plan_is_empty_when_a_translation_is_missing() {
    let no_category = Catalog::new(vec![
        "% Processor Time".to_string(),
        "% Processor Time".to_string(),
    ]);
    assert!(subscription_plan(&no_category, 4).is_empty());
    let no_counter = Catalog::new(vec!["Processor".to_string(), "Processor".to_string()]);
    assert!(subscription_plan(&no_counter, 4).is_empty());
    assert!(subscription_plan(&Catalog::new(Vec::new()), 4).is_empty());
}

#[test]
fn outcomes_pair_requests_with_answers_in_plan_order() {
    let catalog = Catalog::new(vec![
        "Processor".to_string(),
        "Processor".to_string(),
        "% Processor Time".to_string(),
        "% Processor Time".to_string(),
    ]);
    let plan = subscription_plan(&catalog, 2);
    let handles = vec![Some(CounterHandle { raw: 7 }), None, Some(CounterHandle { raw: 9 })];
    assert_eq!(
        subscription_outcomes(&plan, &handles),
        vec![
            Subscription { key: CounterKey::Total, handle: Some(CounterHandle { raw: 7 }) },
            Subscription { key: CounterKey::Core(0), handle: None },
            Subscription { key: CounterKey::Core(1), handle: Some(CounterHandle { raw: 9 }) },
        ]
    );
}

#[test]
fn outcomes_without_an_answer_count_as_refused() {
    let catalog = Catalog::new(vec![
        "Processor".to_string(),
        "Processor".to_string(),
        "% Processor Time".to_string(),
        "% Processor Time".to_string(),
    ]);
    let plan = subscription_plan(&catalog, 1);
    let outcomes = subscription_outcomes(&plan, &vec![Some(CounterHandle { raw: 1 })]);
    assert_eq!(
        outcomes,
        vec![
            Subscription { key: CounterKey::Total, handle: Some(CounterHandle { raw: 1 }) },
            Subscription { key: CounterKey::Core(0), handle: None },
        ]
    );
    // answers beyond the plan are passed over
    let many = vec![Some(CounterHandle { raw: 1 }); 5];
    assert_eq!(subscription_outcomes(&plan, &many).len(), 2);
    assert!(subscription_outcomes(&Vec::new(), &many).is_empty());
}
