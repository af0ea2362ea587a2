use rrstat::cli::{parse_event, Args, EventKind};

#[test]
fn cli_test_parse_cpu_cycles() {
    let event = parse_event("cpu-cycles");
    assert!(event.is_ok());
}

#[test]
fn cli_test_parse_invalid() {
    let event = parse_event("invalid-event-name");
    assert!(event.is_err());
}

#[test]
fn test_test_parse_cpu_cycles() {
    let event = parse_event("cpu-cycles");
    assert!(event.is_ok());
}

#[test]
fn test_test_parse_invalid() {
    let event = parse_event("invalid-event-name");
    assert!(event.is_err());
}

#[test]
fn every_event_name_gives_its_kind() {
    assert_eq!(parse_event("cpu-cycles").unwrap(), EventKind::CpuCycles);
    assert_eq!(parse_event("instructions").unwrap(), EventKind::Instructions);
    assert_eq!(parse_event("cache-references").unwrap(), EventKind::CacheReferences);
    assert_eq!(parse_event("cache-misses").unwrap(), EventKind::CacheMisses);
    assert_eq!(parse_event("task-clock").unwrap(), EventKind::TaskClock);
    assert_eq!(parse_event("cpu-clock").unwrap(), EventKind::CpuClock);
    assert_eq!(parse_event("context-switches").unwrap(), EventKind::ContextSwitches);
    assert_eq!(parse_event("page-faults").unwrap(), EventKind::PageFaults);
}

#[test]
fn other_texts_name_no_event() {
    for name in [
        "",
        "wait-time",
        "CPU-CYCLES",
        "cpu_cycles",
        "cpu-cycles ",
        " cpu-cycles",
        "cpu-cycle",
        "cpu-cycless",
        "page-fault",
        "cycles",
    ] {
        assert!(parse_event(name).is_err(), "{:?} was taken for an event", name);
    }
}

#[test]
fn unknown_event_keeps_the_name_and_says_so() {
    let error = parse_event("invalid-event-name").unwrap_err();
    assert_eq!(error.name, "invalid-event-name");
    assert_eq!(error.message(), "Unknown event: invalid-event-name");
}

#[test]
fn args_hold_what_was_given() {
    let args = Args { pid: 4242, event: String::from("cpu-cycles"), duration: 1000 };
    assert_eq!(args.pid, 4242);
    assert_eq!(args.duration, 1000);
    assert_eq!(parse_event(&args.event).unwrap(), EventKind::CpuCycles);
}
