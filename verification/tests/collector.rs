use rrstat::collector::{
    parse_sample, Collector, CollectorAction, CollectorEvent, ProbeAction, ProbeState,
    SAMPLE_PERIOD_MILLIS,
};

#[test]
fn a_sample_holds_what_it_was_made_of() {
    let sample = parse_sample(123_456, 77, 500, 0x40_1000);
    assert_eq!(sample.value, 123_456);
    assert_eq!(sample.pid, 77);
    assert_eq!(sample.timestamp, 500);
    assert_eq!(sample.instruction_pointer, 0x40_1000);
}

#[test]
fn the_time_stamp_keeps_the_low_64_bits() {
    let sample = parse_sample(0, -1, (1u128 << 64) + 5, 0);
    assert_eq!(sample.timestamp, 5);
    assert_eq!(sample.pid, -1);
    let top = parse_sample(0, 0, u64::MAX as u128, 0);
    assert_eq!(top.timestamp, u64::MAX);
}

#[test]
fn a_probe_that_succeeds_detaches_and_answers() {
    let mut state = ProbeState::start();
    assert_eq!(state.action(), ProbeAction::Attach);
    state = state.advance(Some(0));
    assert_eq!(state.action(), ProbeAction::WaitForStop);
    state = state.advance(Some(0));
    assert_eq!(state.action(), ProbeAction::ReadRegisters);
    state = state.advance(Some(0x7f00_1234));
    assert_eq!(state.action(), ProbeAction::Detach);
    state = state.advance(Some(0));
    assert_eq!(state.action(), ProbeAction::Finish { ip: 0x7f00_1234 });
    assert_eq!(state.advance(None), ProbeState::Done { ip: 0x7f00_1234 });
}

#[test]
fn a_probe_that_cannot_attach_answers_zero_at_once() {
    let state = ProbeState::start().advance(None);
    assert_eq!(state, ProbeState::Done { ip: 0 });
    assert_eq!(state.action(), ProbeAction::Finish { ip: 0 });
}

#[test]
fn a_probe_that_fails_after_attaching_detaches_first() {
    let waiting_failed = ProbeState::start().advance(Some(0)).advance(None);
    assert_eq!(waiting_failed.action(), ProbeAction::Detach);
    assert_eq!(waiting_failed.advance(Some(0)).action(), ProbeAction::Finish { ip: 0 });

    let reading_failed = ProbeState::start().advance(Some(0)).advance(Some(0)).advance(None);
    assert_eq!(reading_failed.action(), ProbeAction::Detach);
    // Whether detaching works or not, the probe ends.
    assert_eq!(reading_failed.advance(None).action(), ProbeAction::Finish { ip: 0 });
}

#[test]
fn the_worker_goes_round_while_the_flag_is_set() {
    let mut collector = Collector::new(31);
    assert!(matches!(collector.step(CollectorEvent::Begin), CollectorAction::CheckRunning));
    for round in 0..3u64 {
        let action = collector.step(CollectorEvent::Running(true));
        assert!(matches!(action, CollectorAction::Sleep { millis: 100 }));
        assert!(matches!(collector.step(CollectorEvent::Slept), CollectorAction::ReadCounter));
        let action = collector.step(CollectorEvent::Counter(Some(1000 + round)));
        assert!(matches!(action, CollectorAction::Probe { pid: 31 }));
        let action = collector.step(CollectorEvent::Probed {
            ip: 0x5000 + round,
            elapsed_millis: 100 * (round as u128 + 1),
        });
        match action {
            CollectorAction::Push(sample) => {
                assert_eq!(sample.value, 1000 + round);
                assert_eq!(sample.pid, 31);
                assert_eq!(sample.timestamp, 100 * (round + 1));
                assert_eq!(sample.instruction_pointer, 0x5000 + round);
            },
            other => panic!("expected a sample, got {:?}", other),
        }
        assert!(matches!(collector.step(CollectorEvent::Pushed), CollectorAction::CheckRunning));
    }
    assert!(matches!(collector.step(CollectorEvent::Running(false)), CollectorAction::Stop));
    assert_eq!(SAMPLE_PERIOD_MILLIS, 100);
}

#[test]
fn the_worker_ends_when_the_flag_is_cleared() {
    let mut collector = Collector::new(31);
    collector.step(CollectorEvent::Begin);
    assert!(matches!(collector.step(CollectorEvent::Running(false)), CollectorAction::Stop));
    // Once ended it stays so.
    assert!(matches!(collector.step(CollectorEvent::Running(true)), CollectorAction::Stop));
    assert!(matches!(collector.step(CollectorEvent::Begin), CollectorAction::Stop));
}

#[test]
fn the_worker_ends_when_the_counter_cannot_be_read() {
    let mut collector = Collector::new(31);
    collector.step(CollectorEvent::Begin);
    collector.step(CollectorEvent::Running(true));
    collector.step(CollectorEvent::Slept);
    assert!(matches!(collector.step(CollectorEvent::Counter(None)), CollectorAction::Stop));
}

#[test]
fn the_worker_ends_on_what_is_out_of_turn() {
    let mut collector = Collector::new(31);
    assert!(matches!(collector.step(CollectorEvent::Slept), CollectorAction::Stop));
    let mut collector = Collector::new(31);
    collector.step(CollectorEvent::Begin);
    assert!(matches!(collector.step(CollectorEvent::Pushed), CollectorAction::Stop));
}
