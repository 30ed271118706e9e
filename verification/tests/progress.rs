use common_sense_coder::progress::{
    format_event, ProgressError, ProgressForwarder, ProgressParams, ProgressToken,
    ProgressTracker, Ready, WorkDone,
};

fn text(token: &str) -> ProgressToken {
    ProgressToken::Text(token.to_owned())
}

fn begin(token: ProgressToken) -> ProgressParams {
    ProgressParams {
        token,
        value: WorkDone::Begin {
            title: "Indexing".to_owned(),
            message: None,
            percentage: None,
        },
    }
}

fn report(token: ProgressToken) -> ProgressParams {
    ProgressParams {
        token,
        value: WorkDone::Report {
            message: Some("3/7".to_owned()),
            percentage: Some(42),
        },
    }
}

fn end(token: ProgressToken) -> ProgressParams {
    ProgressParams {
        token,
        value: WorkDone::End { message: None },
    }
}

#[test]
fn ready_needs_both_flags() {
    assert!(Ready { init: true, progress: true }.ready());
    assert!(!Ready { init: false, progress: true }.ready());
    assert!(!Ready { init: true, progress: false }.ready());
    assert!(!Ready { init: false, progress: false }.ready());
}

#[test]
fn a_tracker_starts_unready() {
    let tracker = ProgressTracker::new(vec!["a".to_owned()]);
    assert_eq!(tracker.readiness(), Ready { init: false, progress: true });
    assert_eq!(tracker.running_len(), 0);
    // the start-up is not done before the first notification, whatever it waits for
    let tracker = ProgressTracker::new(vec![]);
    assert_eq!(tracker.readiness(), Ready { init: false, progress: true });
}

#[test]
fn the_start_up_is_done_once_all_expected_work_has_begun() {
    let mut tracker = ProgressTracker::new(vec!["a".to_owned(), "b".to_owned()]);

    let update = tracker.step(&begin(text("a"))).unwrap();
    assert_eq!(update.ready, Ready { init: false, progress: false });
    assert!(update.modified);
    assert_eq!(update.event, "start a Indexing");

    let update = tracker.step(&report(text("a"))).unwrap();
    assert_eq!(update.ready, Ready { init: false, progress: false });
    assert!(!update.modified);
    assert_eq!(update.event, "progress a 3/7 42%");

    let update = tracker.step(&end(text("a"))).unwrap();
    assert_eq!(update.ready, Ready { init: false, progress: true });
    assert!(update.modified);
    assert_eq!(update.event, "end a");

    let update = tracker.step(&begin(text("b"))).unwrap();
    assert_eq!(update.ready, Ready { init: true, progress: false });
    assert!(!update.ready.ready());

    let update = tracker.step(&end(text("b"))).unwrap();
    assert_eq!(update.ready, Ready { init: true, progress: true });
    assert!(update.ready.ready());
    assert!(update.modified);

    // later work takes the readiness away and gives it back; the start-up stays done
    let update = tracker.step(&begin(ProgressToken::Number(7))).unwrap();
    assert_eq!(update.ready, Ready { init: true, progress: false });
    assert_eq!(update.event, "start Indexing");
    let update = tracker.step(&begin(text("a"))).unwrap();
    assert_eq!(update.ready, Ready { init: true, progress: false });
    assert_eq!(tracker.running_len(), 2);
    let update = tracker.step(&end(text("a"))).unwrap();
    assert!(update.ready.init);
    let update = tracker.step(&end(ProgressToken::Number(7))).unwrap();
    assert_eq!(update.ready, Ready { init: true, progress: true });
    assert_eq!(tracker.readiness(), Ready { init: true, progress: true });
}

#[test]
fn without_expected_work_the_first_notification_ends_the_start_up() {
    let mut tracker = ProgressTracker::new(vec![]);
    let update = tracker.step(&report(ProgressToken::Number(1))).unwrap();
    assert_eq!(update.ready, Ready { init: true, progress: true });
    assert!(update.modified);
}

#[test]
fn work_cannot_begin_twice() {
    let mut tracker = ProgressTracker::new(vec!["a".to_owned()]);
    tracker.step(&begin(text("x"))).unwrap();
    let before = tracker.readiness();
    let err = tracker.step(&begin(text("x"))).unwrap_err();
    assert_eq!(err, ProgressError::DoubleStart);
    assert_eq!(err.message(), "Progress double start");
    assert_eq!(tracker.readiness(), before);
    assert_eq!(tracker.running_len(), 1);
    // a number and a text are different names
    tracker.step(&begin(ProgressToken::Number(1))).unwrap();
    tracker.step(&begin(text("1"))).unwrap();
    assert_eq!(tracker.running_len(), 3);
    assert_eq!(
        tracker.step(&begin(ProgressToken::Number(1))).unwrap_err(),
        ProgressError::DoubleStart
    );
}

#[test]
fn work_cannot_end_before_it_began() {
    let mut tracker = ProgressTracker::new(vec![]);
    let err = tracker.step(&end(text("x"))).unwrap_err();
    assert_eq!(err, ProgressError::EndWithoutStart);
    assert_eq!(err.message(), "Progress end without start");
    assert_eq!(tracker.readiness(), Ready { init: false, progress: true });
    tracker.step(&begin(text("x"))).unwrap();
    tracker.step(&end(text("x"))).unwrap();
    assert_eq!(
        tracker.step(&end(text("x"))).unwrap_err(),
        ProgressError::EndWithoutStart
    );
    assert_eq!(tracker.running_len(), 0);
}

#[test]
fn expected_work_that_is_named_twice_is_waited_for_once() {
    let mut tracker = ProgressTracker::new(vec!["a".to_owned(), "a".to_owned()]);
    let update = tracker.step(&begin(text("a"))).unwrap();
    assert!(update.ready.init);
}

#[test]
fn events_are_written_as_words() {
    let token = text("rustAnalyzer/cachePriming");
    assert_eq!(
        format_event(
            &token,
            "start",
            Some("Indexing".to_owned()),
            Some("0/12".to_owned()),
            Some(0)
        ),
        "start rustAnalyzer/cachePriming Indexing 0/12 0%"
    );
    assert_eq!(
        format_event(&token, "progress", None, None, Some(100)),
        "progress rustAnalyzer/cachePriming 100%"
    );
    assert_eq!(format_event(&ProgressToken::Number(3), "end", None, None, None), "end");
    assert_eq!(
        format_event(&ProgressToken::Number(3), "end", None, Some("done".to_owned()), None),
        "end done"
    );
}

#[test]
fn tokens_are_compared_by_what_they_hold() {
    assert!(text("a").same(&text("a")));
    assert!(!text("a").same(&text("b")));
    assert!(!text("1").same(&ProgressToken::Number(1)));
    assert!(ProgressToken::Number(1).same(&ProgressToken::Number(1)));
    assert!(!ProgressToken::Number(1).same(&ProgressToken::Number(2)));
    assert!(text("a").duplicate().same(&text("a")));
}

#[test]
fn forwarded_lines_are_numbered_from_zero() {
    let mut forwarder = ProgressForwarder::new();
    let first = forwarder.notification("start a".to_owned());
    assert_eq!((first.progress, first.message.as_str()), (0, "start a"));
    let second = forwarder.notification("end a".to_owned());
    assert_eq!((second.progress, second.message.as_str()), (1, "end a"));
}

#[test]
fn an_error_names_the_token() {
    assert_eq!(
        ProgressError::DoubleStart.describe(&text("rustAnalyzer/cachePriming")),
        "Progress double start: rustAnalyzer/cachePriming"
    );
    assert_eq!(
        ProgressError::EndWithoutStart.describe(&ProgressToken::Number(7)),
        "Progress end without start: 7"
    );
    assert_eq!(
        ProgressError::EndWithoutStart.describe(&ProgressToken::Number(0)),
        "Progress end without start: 0"
    );
    assert_eq!(
        ProgressError::DoubleStart.describe(&ProgressToken::Number(-12)),
        "Progress double start: -12"
    );
    assert_eq!(
        ProgressError::DoubleStart.describe(&ProgressToken::Number(i32::MIN)),
        "Progress double start: -2147483648"
    );
    assert_eq!(ProgressError::DoubleStart.describe(&text("")), "Progress double start: ");
}
