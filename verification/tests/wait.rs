use kirv::control::span::Span;
use kirv::control::wait::with_stop_check;

/// What a wait has done so far.
#[derive(Debug, Default, PartialEq, Eq)]
struct Log {
    polls: usize,
    slept: Vec<Span>,
}

impl Log {
    fn polled(mut self) -> Log {
        self.polls += 1;
        self
    }

    fn slept(mut self, slice: Span) -> Log {
        assert_eq!(
            self.polls,
            self.slept.len() + 1,
            "each sleep should follow one poll"
        );
        self.slept.push(slice);
        self
    }

    fn total(&self) -> Span {
        Span {
            nanos: self.slept.iter().map(|slice| slice.nanos).sum(),
        }
    }
}

#[test]
fn with_stop_check_finishes_when_stop_is_not_requested() {
    let log = with_stop_check(
        Span::from_millis(25),
        Log::default(),
        |log| (false, log.polled()),
        |log, slice| log.slept(slice),
    );

    assert_eq!(log.total(), Span::from_millis(25));
    assert_eq!(log.polls, 3);
    assert_eq!(
        log.slept,
        vec![
            Span::from_millis(10),
            Span::from_millis(10),
            Span::from_millis(5)
        ]
    );
}

#[test]
fn with_stop_check_stops_early_when_stop_is_requested() {
    let log = with_stop_check(
        Span::from_millis(50),
        Log::default(),
        |log| {
            let log = log.polled();
            (log.polls >= 3, log)
        },
        |log, slice| log.slept(slice),
    );

    assert_eq!(log.total(), Span::from_millis(20));
    assert_eq!(log.slept, vec![Span::from_millis(10); 2]);
    assert_eq!(log.polls, 3);
}

#[test]
fn with_stop_check_of_nothing_asks_nothing() {
    let log = with_stop_check(
        Span::zero(),
        Log::default(),
        |_| panic!("nothing is left to wait for"),
        |_, _| panic!("nothing is left to sleep"),
    );

    assert_eq!(log, Log::default());
}

#[test]
fn with_stop_check_sleeps_whole_slices() {
    let log = with_stop_check(
        Span::from_millis(20),
        Log::default(),
        |log| (false, log.polled()),
        |log, slice| log.slept(slice),
    );

    assert_eq!(log.slept, vec![Span::from_millis(10); 2]);
}

#[test]
fn spans_count_nanoseconds() {
    assert_eq!(Span::from_millis(3).nanos, 3_000_000);
    assert!(Span::zero().is_zero());
    assert_eq!(
        Span::from_millis(5).saturating_sub(Span::from_millis(2)),
        Span::from_millis(3)
    );
    assert_eq!(
        Span::from_millis(2).saturating_sub(Span::from_millis(5)),
        Span::zero()
    );
}
