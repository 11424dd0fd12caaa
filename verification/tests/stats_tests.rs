use flight_bench::stats::Action;
use flight_bench::stats::Aggregator;
use flight_bench::stats::ErrorKind;
use flight_bench::stats::Event;
use flight_bench::stats::FinalReport;
use flight_bench::stats::FlushReport;
use flight_bench::stats::Input;
use flight_bench::stats::ShutdownController;
use flight_bench::stats::Status;
use flight_bench::stats::scale_to_unit;

#[test]
fn event_constructors() {
    let ok = Event::new(1000, 250);
    assert_eq!(ok.size, 1000);
    assert_eq!(ok.latency_nanos, 250);
    assert_eq!(ok.error, None);

    let bad = Event::error(77, ErrorKind::Transport);
    assert_eq!(bad.size, 0);
    assert_eq!(bad.latency_nanos, 77);
    assert_eq!(bad.error, Some(ErrorKind::Transport));
}

#[test]
fn counters_reflect_successes_and_failures() {
    let mut status = Status::new();
    for _ in 0..4 {
        status.update(Event::new(10, 5));
    }
    for _ in 0..3 {
        status.update(Event::error(9, ErrorKind::Protocol));
    }
    assert_eq!(status.count, 4);
    assert_eq!(status.err, 3);
    assert_eq!(status.size, 40);
    assert_eq!(status.latency, 20);
    assert_eq!(status.count + status.err, 7);
}

#[test]
fn scenario_a_single_worker_window() {
    let mut agg = Aggregator::new(2);
    for _ in 0..5 {
        let act = agg.step(Input::Event(Event::new(1000, 100_000_000)));
        assert_eq!(act, Action::Continue);
    }
    let act = agg.step(Input::Tick);
    assert_eq!(
        act,
        Action::Flush(FlushReport {
            throughput: 2500,
            qps: 2,
            latency_nanos: 250_000_000,
            err_rate: 0,
        })
    );
}

#[test]
fn scenario_b_errors_counted_apart() {
    let mut agg = Aggregator::new(2);
    agg.step(Input::Event(Event::new(300, 10)));
    agg.step(Input::Event(Event::error(5, ErrorKind::Transport)));
    agg.step(Input::Event(Event::new(600, 20)));
    agg.step(Input::Event(Event::error(5, ErrorKind::Protocol)));
    agg.step(Input::Event(Event::new(900, 30)));
    let act = agg.step(Input::Tick);
    // err/sec counts the two failures; size and latency come from the three
    // successes alone.
    assert_eq!(
        act,
        Action::Flush(FlushReport { throughput: 900, qps: 1, latency_nanos: 30, err_rate: 1 })
    );
}

#[test]
fn flush_zeroes_window_but_not_history() {
    let mut agg = Aggregator::new(2);
    agg.step(Input::Event(Event::new(2048, 100)));
    agg.step(Input::Event(Event::new(2048, 300)));
    assert_eq!(agg.summary().recorded_count(), 2);

    let first = agg.step(Input::Tick);
    assert_eq!(
        first,
        Action::Flush(FlushReport { throughput: 2048, qps: 1, latency_nanos: 200, err_rate: 0 })
    );

    // An empty window right after the flush reports all zeroes...
    let second = agg.step(Input::Tick);
    assert_eq!(
        second,
        Action::Flush(FlushReport { throughput: 0, qps: 0, latency_nanos: 0, err_rate: 0 })
    );

    // ...while the history still holds every latency ever observed.
    assert_eq!(agg.summary().recorded_count(), 2);
    assert_eq!(agg.summary().total_size(), 4096);
}

#[test]
fn shutdown_is_idempotent() {
    let mut agg = Aggregator::new(2);
    agg.step(Input::Event(Event::new(10, 1)));
    let first = agg.step(Input::Shutdown);
    assert!(matches!(first, Action::Terminate(_)));
    assert!(agg.is_terminated());

    // A second trigger, or anything else, can never terminate again.
    assert_eq!(agg.step(Input::Shutdown), Action::Continue);
    assert_eq!(agg.step(Input::Event(Event::new(10, 1))), Action::Continue);
    assert_eq!(agg.step(Input::Tick), Action::Continue);
    assert!(agg.is_terminated());
}

#[test]
fn flood_of_events_cannot_defer_the_flush() {
    let mut agg = Aggregator::new(2);
    for _ in 0..1000 {
        agg.step(Input::Event(Event::new(2, 1)));
    }
    let act = agg.step(Input::Tick);
    assert_eq!(
        act,
        Action::Flush(FlushReport { throughput: 1000, qps: 500, latency_nanos: 500, err_rate: 0 })
    );
}

#[test]
fn scenario_d_final_totals_ignore_window_boundaries() {
    let mut agg = Aggregator::new(2);
    agg.step(Input::Event(Event::new(100, 1)));
    agg.step(Input::Event(Event::error(2, ErrorKind::Transport)));
    agg.step(Input::Tick);
    agg.step(Input::Event(Event::new(200, 3)));
    agg.step(Input::Event(Event::error(4, ErrorKind::Protocol)));
    agg.step(Input::Event(Event::new(300, 5)));
    let act = agg.step(Input::Shutdown);
    assert_eq!(
        act,
        Action::Terminate(FinalReport {
            total_size: 600,
            transport_errors: 1,
            protocol_errors: 1,
        })
    );
    assert_eq!(agg.summary().recorded_count(), 3);
}

#[test]
fn closed_channels_terminate_too() {
    let mut agg = Aggregator::new(2);
    let act = agg.step(Input::Closed);
    assert_eq!(
        act,
        Action::Terminate(FinalReport { total_size: 0, transport_errors: 0, protocol_errors: 0 })
    );
}

#[test]
fn shutdown_controller_notifies_once() {
    let mut ctl = ShutdownController::new();
    assert!(ctl.trigger());
    assert!(!ctl.trigger());
    assert!(!ctl.trigger());
}

#[test]
fn byte_scaling_walks_the_unit_ladder() {
    assert_eq!(scale_to_unit(0), (0, 0));
    assert_eq!(scale_to_unit(1023), (1023, 0));
    assert_eq!(scale_to_unit(2500), (2, 1));
    assert_eq!(scale_to_unit(1048576), (1, 2));
    assert_eq!(scale_to_unit(u64::MAX), (15, 6));
}

#[test]
fn histogram_sees_every_success_latency() {
    // Each success records one sample into the real histogram; failures do
    // not touch it.
    let mut agg = Aggregator::new(2);
    for i in 0..100 {
        agg.step(Input::Event(Event::new(1, i * 1_000_000)));
    }
    agg.step(Input::Event(Event::error(1, ErrorKind::Transport)));
    assert_eq!(agg.summary().recorded_count(), 100);
    let h = agg.summary().histogram();
    assert_eq!(h.inner.len(), 100);
}

#[test]
fn hdrhistogram_test() {
    let mut histogram = hdrhistogram::Histogram::<u64>::new(3).unwrap();

    histogram.saturating_record(100);

    println!("histogram. = {:#?}", histogram.len());
}
