use sysinfo::session::{find_reading, Counter, CounterHandle, CounterKey, RawReading, Session};

#[test]
fn open_reflects_availability() {
    assert!(Session::open(false).is_none());
    let session = Session::open(true).unwrap();
    assert_eq!(session.len(), 0);
    assert!(session.handles().is_empty());
}

#[test]
fn add_counter_records_a_subscription() {
    let mut session = Session::open(true).unwrap();
    assert!(!session.contains(CounterKey::Total));
    assert!(session.add_counter(CounterKey::Total, Some(CounterHandle { raw: 11 })));
    assert!(session.contains(CounterKey::Total));
    assert!(!session.contains(CounterKey::Core(0)));
    assert_eq!(
        session.lookup(CounterKey::Total),
        Some(Counter { key: CounterKey::Total, handle: CounterHandle { raw: 11 }, sample: None })
    );
    assert_eq!(session.lookup(CounterKey::Core(0)), None);
}

#[test]
fn add_counter_is_idempotent_per_key() {
    let mut session = Session::open(true).unwrap();
    assert!(session.add_counter(CounterKey::Core(3), Some(CounterHandle { raw: 7 })));
    assert!(!session.add_counter(CounterKey::Core(3), Some(CounterHandle { raw: 8 })));
    assert!(!session.add_counter(CounterKey::Core(3), Some(CounterHandle { raw: 7 })));
    assert_eq!(session.len(), 1);
    assert_eq!(session.handles(), vec![CounterHandle { raw: 7 }]);
    assert_eq!(session.lookup(CounterKey::Core(3)).unwrap().handle, CounterHandle { raw: 7 });
}

#[test]
fn refused_subscription_adds_nothing() {
    let mut session = Session::open(true).unwrap();
    assert!(!session.add_counter(CounterKey::Total, None));
    assert_eq!(session.len(), 0);
    assert!(!session.contains(CounterKey::Total));
    // a later attempt that succeeds is recorded
    assert!(session.add_counter(CounterKey::Total, Some(CounterHandle { raw: 1 })));
    assert_eq!(session.len(), 1);
}

#[test]
fn handles_come_in_subscription_order() {
    let mut session = Session::open(true).unwrap();
    session.add_counter(CounterKey::Total, Some(CounterHandle { raw: 30 }));
    session.add_counter(CounterKey::Core(1), Some(CounterHandle { raw: 10 }));
    session.add_counter(CounterKey::Core(0), Some(CounterHandle { raw: 20 }));
    assert_eq!(
        session.handles(),
        vec![CounterHandle { raw: 30 }, CounterHandle { raw: 10 }, CounterHandle { raw: 20 }]
    );
}

#[test]
fn find_reading_takes_the_first_value_for_a_handle() {
    let batch = vec![
        RawReading { handle: CounterHandle { raw: 1 }, value: 100 },
        RawReading { handle: CounterHandle { raw: 2 }, value: 200 },
        RawReading { handle: CounterHandle { raw: 1 }, value: 300 },
    ];
    assert_eq!(find_reading(&batch, CounterHandle { raw: 1 }), Some(100));
    assert_eq!(find_reading(&batch, CounterHandle { raw: 2 }), Some(200));
    assert_eq!(find_reading(&batch, CounterHandle { raw: 3 }), None);
    assert_eq!(find_reading(&Vec::new(), CounterHandle { raw: 1 }), None);
}

#[test]
fn refresh_overwrites_every_sample() {
    let mut session = Session::open(true).unwrap();
    session.add_counter(CounterKey::Total, Some(CounterHandle { raw: 1 }));
    session.add_counter(CounterKey::Core(0), Some(CounterHandle { raw: 2 }));
    let first = vec![
        RawReading { handle: CounterHandle { raw: 2 }, value: 22 },
        RawReading { handle: CounterHandle { raw: 1 }, value: 11 },
    ];
    assert!(session.refresh(&first));
    assert_eq!(session.get(CounterKey::Total), 11);
    assert_eq!(session.get(CounterKey::Core(0)), 22);
    let second = vec![
        RawReading { handle: CounterHandle { raw: 1 }, value: 111 },
        RawReading { handle: CounterHandle { raw: 2 }, value: 222 },
        RawReading { handle: CounterHandle { raw: 9 }, value: 999 },
    ];
    assert!(session.refresh(&second));
    assert_eq!(session.get(CounterKey::Total), 111);
    assert_eq!(session.get(CounterKey::Core(0)), 222);
    assert_eq!(session.len(), 2);
}

#[test]
fn incomplete_batch_changes_nothing() {
    let mut session = Session::open(true).unwrap();
    session.add_counter(CounterKey::Total, Some(CounterHandle { raw: 1 }));
    session.add_counter(CounterKey::Core(0), Some(CounterHandle { raw: 2 }));
    let full = vec![
        RawReading { handle: CounterHandle { raw: 1 }, value: 11 },
        RawReading { handle: CounterHandle { raw: 2 }, value: 22 },
    ];
    assert!(session.refresh(&full));
    let partial = vec![RawReading { handle: CounterHandle { raw: 1 }, value: 555 }];
    assert!(!session.refresh(&partial));
    assert_eq!(session.get(CounterKey::Total), 11);
    assert_eq!(session.get(CounterKey::Core(0)), 22);
    assert!(!session.refresh(&Vec::new()));
    assert_eq!(session.get(CounterKey::Total), 11);
}

#[test]
fn empty_session_accepts_any_batch() {
    let mut session = Session::open(true).unwrap();
    assert!(session.refresh(&Vec::new()));
    assert!(session.refresh(&vec![RawReading { handle: CounterHandle { raw: 5 }, value: 1 }]));
    assert_eq!(session.len(), 0);
}

#[test]
fn counters_sharing_a_handle_take_the_same_value() {
    let mut session = Session::open(true).unwrap();
    session.add_counter(CounterKey::Core(0), Some(CounterHandle { raw: 4 }));
    session.add_counter(CounterKey::Core(1), Some(CounterHandle { raw: 4 }));
    assert!(session.refresh(&vec![RawReading { handle: CounterHandle { raw: 4 }, value: 77 }]));
    assert_eq!(session.get(CounterKey::Core(0)), 77);
    assert_eq!(session.get(CounterKey::Core(1)), 77);
}
