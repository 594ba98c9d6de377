use perf_events::error::OpenError;
use perf_events::error::PerfEventsError;
use perf_events::events::Event;
use perf_events::counter::EventCounter;
use perf_events::Counts;
use perf_events::CpuConfig;
use perf_events::PidConfig;

#[test]
fn test_one_shot() {
    let mut opened: Vec<Result<i32, OpenError>> = Vec::new();
    for i in 0..19 {
        opened.push(Ok(100 + i));
    }
    let mut enables: Vec<Result<(), i32>> = Vec::new();
    for _ in 0..19 {
        enables.push(Ok(()));
    }
    let mut counts = Counts::start_all_available(opened, enables).unwrap();

    let mut outcomes: Vec<Result<u64, i32>> = Vec::new();
    for _ in 0..19 {
        outcomes.push(Ok(5));
    }
    let before = counts.read(outcomes);
    println!("first:\n{:#?}", before);

    for _ in 0..10000 {
        // noop
    }

    let mut outcomes: Vec<Result<u64, i32>> = Vec::new();
    for _ in 0..19 {
        outcomes.push(Ok(6));
    }
    let after = counts.read(outcomes);
    println!("second:\n{:#?}", after);
}

#[test]
fn create_partitions_mixed_outcomes() {
    // three requested events, the middle one fails to open: the
    // aggregate holds the two that opened, the failure map exactly the
    // one that did not
    let builder = Counts::new(PidConfig::Current, CpuConfig::All)
        .event(Event::CpuCycles)
        .event(Event::Instructions)
        .event(Event::CacheMisses);
    let opened = vec![Ok(3), Err(OpenError::PermissionDenied), Ok(4)];
    let (counts, failures) = builder.create(opened);
    let counts = counts.unwrap();
    assert_eq!(counts.counters.len(), 2);
    assert_eq!(counts.counters[0], EventCounter { event: Event::CpuCycles, fd: 3 });
    assert_eq!(counts.counters[1], EventCounter { event: Event::CacheMisses, fd: 4 });
    let failures = failures.unwrap_err();
    assert_eq!(failures, vec![(Event::Instructions, OpenError::PermissionDenied)]);
}

#[test]
fn create_all_fail() {
    // every requested event fails: no aggregate, and the failure map
    // covers every requested event
    let builder = Counts::new(PidConfig::Current, CpuConfig::All)
        .event(Event::CpuCycles)
        .event(Event::PageFaults);
    let opened = vec![
        Err(OpenError::UnsupportedEvent),
        Err(OpenError::ResourceLimit),
    ];
    let (counts, failures) = builder.create(opened);
    assert!(counts.is_err());
    let failures = failures.unwrap_err();
    assert_eq!(
        failures,
        vec![
            (Event::CpuCycles, OpenError::UnsupportedEvent),
            (Event::PageFaults, OpenError::ResourceLimit),
        ]
    );
}

#[test]
fn create_empty_request() {
    let builder = Counts::new(PidConfig::Current, CpuConfig::All);
    let (counts, failures) = builder.create(Vec::new());
    assert!(counts.is_err());
    assert!(failures.is_ok());
}

#[test]
fn builder_dedup_idempotent() {
    // requesting the same event twice yields exactly one counter for it
    let builder = Counts::new(PidConfig::Other(42), CpuConfig::Specific(1))
        .event(Event::BranchMisses)
        .event(Event::BranchMisses);
    let (counts, failures) = builder.create(vec![Ok(9)]);
    let counts = counts.unwrap();
    assert_eq!(counts.counters.len(), 1);
    assert_eq!(counts.counters[0].event, Event::BranchMisses);
    assert!(failures.is_ok());
}

#[test]
fn partial_success_scenario() {
    // one of two events always fails to open: the aggregate still
    // exists with one counter, and the failure names the other event
    let builder = Counts::new(PidConfig::Current, CpuConfig::All)
        .event(Event::CpuCycles)
        .event(Event::Instructions);
    let opened = vec![Ok(10), Err(OpenError::UnsupportedEvent)];
    let (counts, failures) = builder.create(opened);
    let counts = counts.unwrap();
    assert_eq!(counts.counters.len(), 1);
    assert_eq!(counts.counters[0].event, Event::CpuCycles);
    assert_eq!(
        failures.unwrap_err(),
        vec![(Event::Instructions, OpenError::UnsupportedEvent)]
    );
}

#[test]
fn start_reports_each_counter() {
    let builder = Counts::new(PidConfig::Current, CpuConfig::All)
        .event(Event::CpuCycles)
        .event(Event::Instructions);
    let (counts, _) = builder.create(vec![Ok(3), Ok(4)]);
    let mut counts = counts.unwrap();
    let res = counts.start(vec![Ok(()), Err(13)]);
    assert_eq!(res.len(), 2);
    assert!(res[0].is_ok());
    assert!(matches!(res[1], Err(PerfEventsError::EnableFailed { errno: 13 })));
}

#[test]
fn read_drops_failed_counters() {
    let builder = Counts::new(PidConfig::Current, CpuConfig::All)
        .event(Event::CpuCycles)
        .event(Event::Instructions)
        .event(Event::CacheMisses);
    let (counts, _) = builder.create(vec![Ok(3), Ok(4), Ok(5)]);
    let mut counts = counts.unwrap();
    let snapshot = counts.read(vec![Ok(7), Err(9), Ok(8)]);
    assert_eq!(
        snapshot,
        vec![(Event::CpuCycles, 7), (Event::CacheMisses, 8)]
    );
}

#[test]
fn read_twice_nondecreasing() {
    // cumulative counters: a second read with no intervening activity
    // reports values at least as large, per event
    let builder = Counts::new(PidConfig::Current, CpuConfig::All)
        .event(Event::CpuCycles)
        .event(Event::TaskClock);
    let (counts, _) = builder.create(vec![Ok(3), Ok(4)]);
    let mut counts = counts.unwrap();
    let first = counts.read(vec![Ok(100), Ok(5)]);
    let second = counts.read(vec![Ok(180), Ok(5)]);
    assert_eq!(first.len(), second.len());
    for (a, b) in first.iter().zip(second.iter()) {
        assert_eq!(a.0, b.0);
        assert!(a.1 <= b.1);
    }
}

#[test]
fn start_all_available_no_counters() {
    let mut opened: Vec<Result<i32, OpenError>> = Vec::new();
    for _ in 0..19 {
        opened.push(Err(OpenError::NoKernelSupport));
    }
    let res = Counts::start_all_available(opened, Vec::new());
    assert!(matches!(res, Err(PerfEventsError::StartError { .. })));
}

#[test]
fn all_available_requests_whole_catalogue() {
    let builder = Counts::new(PidConfig::Current, CpuConfig::All).all_available();
    let mut opened: Vec<Result<i32, OpenError>> = Vec::new();
    for i in 0..19 {
        opened.push(Ok(50 + i));
    }
    let (counts, failures) = builder.create(opened);
    let counts = counts.unwrap();
    assert_eq!(counts.counters.len(), Event::all_events().len());
    for (c, e) in counts.counters.iter().zip(Event::all_events().iter()) {
        assert_eq!(c.event, *e);
    }
    assert!(failures.is_ok());
}

#[test]
fn open_error_classification() {
    assert_eq!(OpenError::from_errno(1), OpenError::PermissionDenied);
    assert_eq!(OpenError::from_errno(13), OpenError::PermissionDenied);
    assert_eq!(OpenError::from_errno(2), OpenError::UnsupportedEvent);
    assert_eq!(OpenError::from_errno(19), OpenError::UnsupportedEvent);
    assert_eq!(OpenError::from_errno(95), OpenError::UnsupportedEvent);
    assert_eq!(OpenError::from_errno(23), OpenError::ResourceLimit);
    assert_eq!(OpenError::from_errno(24), OpenError::ResourceLimit);
    assert_eq!(OpenError::from_errno(28), OpenError::ResourceLimit);
    assert_eq!(OpenError::from_errno(38), OpenError::NoKernelSupport);
    assert_eq!(OpenError::from_errno(7), OpenError::Other(7));
}

#[test]
fn scope_selectors() {
    assert_eq!(PidConfig::Current.raw(), 0);
    assert_eq!(PidConfig::Other(1234).raw(), 1234);
    assert_eq!(CpuConfig::All.raw(), -1);
    assert_eq!(CpuConfig::Specific(2).raw(), 2);
}

#[test]
fn counter_read_and_enable_outcomes() {
    let c = EventCounter::new(Event::CpuCycles, 5);
    assert_eq!(c.read(Ok(33)).unwrap(), (Event::CpuCycles, 33));
    assert!(matches!(c.read(Err(9)), Err(PerfEventsError::ReadFailed { errno: 9 })));
    assert!(c.enable(Ok(())).is_ok());
    assert!(matches!(c.enable(Err(13)), Err(PerfEventsError::EnableFailed { errno: 13 })));
}

#[test]
fn catalogue_ids_are_ordered() {
    let all = Event::all_events();
    for i in 1..all.len() {
        assert!(all[i - 1].id() < all[i].id());
    }
}
