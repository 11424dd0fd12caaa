use flight_bench::command::CommonArgs;
use flight_bench::command::Time;
use flight_bench::command::default_time;
use flight_bench::stats::Action;
use flight_bench::stats::Aggregator;
use flight_bench::stats::ErrorKind;
use flight_bench::stats::Event;
use flight_bench::stats::Input;
use flight_bench::worker::RequestOutcome;
use flight_bench::worker::RequestSource;
use flight_bench::worker::completion_event;
use flight_bench::worker::sum_chunk_sizes;

#[test]
fn infinite_source_repeats_its_ticket() {
    let mut source = RequestSource::Infinite { ticket: vec![1, 2, 3] };
    assert_eq!(source.next(), Some(vec![1, 2, 3]));
    assert_eq!(source.next(), Some(vec![1, 2, 3]));
    assert_eq!(source.next(), Some(vec![1, 2, 3]));
}

#[test]
fn scenario_c_finite_source_exhausts_cleanly() {
    // A finite source hands out its three descriptors, then answers nothing
    // forever: the worker's loop ends and emits no further events, while the
    // aggregator keeps running idle until the external shutdown.
    let mut source = RequestSource::Finite {
        tickets: vec![vec![1], vec![2], vec![3]],
        next: 0,
    };
    let mut agg = Aggregator::new(2);
    let mut emitted: usize = 0;
    while let Some(ticket) = source.next() {
        let outcome = RequestOutcome::Chunks(vec![(ticket.len() as u64, 10)]);
        agg.step(Input::Event(completion_event(&outcome, 1000)));
        emitted += 1;
    }
    assert_eq!(emitted, 3);
    assert_eq!(source.next(), None);
    assert_eq!(source.next(), None);

    assert!(!agg.is_terminated());
    assert_eq!(agg.step(Input::Tick), Action::Flush(flight_bench::stats::FlushReport {
        throughput: 16,
        qps: 1,
        latency_nanos: 1500,
        err_rate: 0,
    }));
    assert!(!agg.is_terminated());
    assert!(matches!(agg.step(Input::Shutdown), Action::Terminate(_)));
    assert!(agg.is_terminated());
}

#[test]
fn chunk_sizes_sum_headers_and_bodies() {
    assert_eq!(sum_chunk_sizes(&vec![]), 0);
    assert_eq!(sum_chunk_sizes(&vec![(10, 20), (30, 40)]), 100);
    assert_eq!(sum_chunk_sizes(&vec![(u64::MAX, 1)]), u64::MAX);
}

#[test]
fn completion_event_of_each_outcome() {
    let ok = completion_event(&RequestOutcome::Chunks(vec![(10, 20), (30, 40)]), 7);
    assert_eq!(ok, Event::new(100, 7));

    let failed = completion_event(&RequestOutcome::Failed(ErrorKind::Protocol), 9);
    assert_eq!(failed, Event::error(9, ErrorKind::Protocol));
}

#[test]
fn worker_count_is_connections_times_streams() {
    let args = CommonArgs {
        host: String::from("localhost"),
        factor: vec![String::from("alpha")],
        connection: 3,
        stream: 4,
    };
    assert_eq!(args.worker_count(), Some(12));

    let too_many = CommonArgs {
        host: String::from("localhost"),
        factor: vec![],
        connection: usize::MAX,
        stream: 2,
    };
    assert_eq!(too_many.worker_count(), None);
}

#[test]
fn time_of_day_is_checked() {
    assert_eq!(Time::new(10, 0, 0), Some(Time { hour: 10, minute: 0, second: 0 }));
    assert_eq!(Time::new(24, 0, 0), None);
    assert_eq!(Time::new(10, 60, 0), None);
    assert_eq!(default_time(), Time { hour: 10, minute: 0, second: 0 });
}
