use egui_tester::duration::Duration;
use egui_tester::error::{Error, Source, SourceKind};
use egui_tester::frames::{percentile, sort, CadenceBudget, CadenceReport, FrameProbe, FrameTrace};
use egui_tester::poll::Round;
use egui_tester::timing::{ActionReceipt, ReactionBudget, ReactionEndpoint};
use egui_tester::witness::frame_journal::{append_frame, open_frame_journal, FrameSample};

fn sample(frame: u64, begun_ns: u64, surface_presented_ns: u64) -> FrameSample {
    FrameSample {
        frame,
        surface_sequence: frame + 1,
        begun_ns,
        observed_ns: begun_ns + 5,
        surface_presented_ns,
    }
}

fn receipt(gesture_started_ns: u64, triggered_ns: u64, completed_ns: u64) -> ActionReceipt {
    ActionReceipt::recorded(gesture_started_ns, triggered_ns, completed_ns, "test action")
}

#[test]
fn cadence_uses_unmodified_ui_thread_timestamps() {
    let samples = vec![sample(0, 0, 10), sample(1, 20, 30), sample(2, 40, 50)];
    let report = CadenceReport::forge(&samples).expect("cadence");
    assert_eq!(report.p50, Duration::from_nanos(20));
    assert_eq!(report.paint_p95, Duration::from_nanos(10));
}

#[test]
fn gesture_trace_excludes_an_in_flight_predecessor() {
    let trace = FrameTrace::new(vec![sample(0, 0, 10), sample(1, 20, 30), sample(2, 40, 50)]);
    let action = receipt(15, 35, 45);
    assert_eq!(
        trace
            .during(&action)
            .samples()
            .iter()
            .map(|sample| sample.frame)
            .collect::<Vec<_>>(),
        vec![1, 2]
    );
}

#[test]
fn functional_deadline_does_not_adjudicate_latency() {
    let budget = ReactionBudget::functional(Duration::from_secs(30));
    let receipt = receipt(1_000_000, 1_000_000, 1_000_000);
    let reaction = budget
        .adjudicate("repaint", &receipt, 22_000_001, ())
        .expect("functional deadline must not claim a production regression");
    assert_eq!(reaction.elapsed(), Duration::from_nanos(21_000_001));
}

#[test]
fn functional_timeout_never_dilates_the_production_budget() {
    let budget =
        ReactionBudget::performance(Duration::from_millis(20)).timeout(Duration::from_secs(30));
    let receipt = receipt(1_000_000, 1_000_000, 1_000_000);
    let error = budget
        .adjudicate("repaint", &receipt, 22_000_001, ())
        .expect_err("twenty-one milliseconds must breach twenty");
    assert!(matches!(error, Error::TooSlow { .. }));
}

#[test]
fn performance_budgets_wait_at_least_two_seconds() {
    let brief = ReactionBudget::performance(Duration::from_millis(20));
    assert_eq!(brief.functional_timeout(), Duration::from_secs(2));
    assert_eq!(brief.production(), Some(Duration::from_millis(20)));
    let long = ReactionBudget::performance(Duration::from_secs(1));
    assert_eq!(long.functional_timeout(), Duration::from_secs(10));
    assert_eq!(brief.endpoint(), ReactionEndpoint::Observation);
    assert_eq!(
        brief.through_surface_present().endpoint(),
        ReactionEndpoint::SurfacePresent
    );
    assert_eq!(ReactionEndpoint::Observation.timestamp(1, 2), 1);
    assert_eq!(ReactionEndpoint::SurfacePresent.timestamp(1, 2), 2);
}

#[test]
fn reactions_may_not_predate_their_trigger() {
    let budget = ReactionBudget::functional(Duration::from_secs(1));
    let error = budget
        .adjudicate("repaint", &receipt(1, 10, 12), 9, ())
        .expect_err("predates");
    assert_eq!(
        error.text(),
        "invalid performance observation for repaint: application observation 9 predates input trigger 10"
    );
    let on_time = ReactionBudget::performance(Duration::from_nanos(5))
        .adjudicate("repaint", &receipt(1, 10, 12), 15, 7)
        .expect("the limit itself is admitted");
    assert_eq!(*on_time.value(), 7);
    assert_eq!(on_time.into_value(), 7);
}

#[test]
fn receipts_keep_their_marks() {
    let receipt = ActionReceipt::begin("press");
    let started = receipt.gesture_started_ns();
    let receipt = receipt.trigger().finish().relabel("release");
    assert_eq!(receipt.action(), "release");
    assert_eq!(receipt.gesture_started_ns(), started);
    assert!(started <= receipt.triggered_ns());
    assert!(receipt.triggered_ns() <= receipt.completed_ns());
}

#[test]
fn percentiles_and_sorting_by_hand() {
    assert_eq!(sort(vec![5, 1, 4, 1]), vec![1, 1, 4, 5]);
    let ten: Vec<u64> = (1..=10).collect();
    assert_eq!(percentile(&ten, 50), 5);
    assert_eq!(percentile(&ten, 95), 10);
    assert_eq!(percentile(&ten, 0), 1);
    assert_eq!(percentile(&ten, 250), 10);
    assert_eq!(percentile(&ten, usize::MAX), 10);
    assert_eq!(percentile(&vec![42], 50), 42);
    assert!(CadenceReport::forge(&vec![sample(0, 0, 1)]).is_none());
}

#[test]
fn cadence_budgets_name_their_breach() {
    let trace = FrameTrace::new(vec![sample(0, 0, 10), sample(1, 20, 30), sample(2, 60, 90)]);
    let report = trace
        .adjudicate("scroll", CadenceBudget::default())
        .expect("no limits");
    assert_eq!(report.frames, 3);
    assert_eq!(report.worst, Duration::from_nanos(40));
    for budget in [
        CadenceBudget::default().p50(Duration::from_nanos(19)),
        CadenceBudget::default().p95(Duration::from_nanos(39)),
        CadenceBudget::default().worst(Duration::from_nanos(39)),
        CadenceBudget::default().paint_p95(Duration::from_nanos(29)),
    ] {
        assert!(matches!(
            trace.adjudicate("scroll", budget),
            Err(Error::TooSlow { .. })
        ));
    }
    assert!(matches!(
        trace.adjudicate("scroll", CadenceBudget::default().minimum_frames(4)),
        Err(Error::Timing { .. })
    ));
    assert!(trace
        .adjudicate("scroll", CadenceBudget::default().worst(Duration::from_nanos(40)))
        .is_ok());
}

#[test]
fn frame_probes_wait_for_the_gesture_to_end() {
    let path = b"/frames".to_vec();
    let probe = FrameProbe::sealed(&path, "launch");
    assert_eq!(probe.path(), &path);
    let mut journal = open_frame_journal(&path, "launch").expect("header");
    append_frame(&mut journal, sample(0, 0, 10));
    let action = receipt(5, 6, 20);
    let early = probe.read(&journal);
    match probe.trace(early, &action, false, Duration::from_secs(1)) {
        Ok(Round::Again(8)) => {}
        other => panic!("unexpected {other:?}"),
    }
    append_frame(&mut journal, sample(1, 20, 30));
    let late = probe.read(&journal);
    match probe.trace(late, &action, true, Duration::from_secs(1)) {
        Ok(Round::Done(trace)) => assert_eq!(trace.samples().len(), 1),
        other => panic!("unexpected {other:?}"),
    }
    let absent = Err(Error::Io {
        operation: "open",
        path: path.clone(),
        source: Source { kind: SourceKind::NotFound, text: "absent".to_owned() },
    });
    let error = probe
        .trace(absent, &action, true, Duration::from_secs(1))
        .expect_err("out of time");
    assert_eq!(error.text(), "timed out after 1s waiting for frame trace through test action");
    assert!(probe.read(&b"junk".to_vec()).is_err());
}

#[test]
fn spans_render_and_divide_like_the_clock() {
    for (span, text) in [
        (Duration::from_nanos(21_000_001), std::time::Duration::from_nanos(21_000_001)),
        (Duration::from_millis(1_500), std::time::Duration::from_millis(1_500)),
        (Duration::from_secs(30), std::time::Duration::from_secs(30)),
        (Duration::zero(), std::time::Duration::ZERO),
    ] {
        assert_eq!(span.text(), format!("{text:?}"));
        assert_eq!(span.as_nanos(), text.as_nanos());
        assert_eq!(span.as_millis(), text.as_millis());
        assert_eq!(span.share(7).as_nanos(), (text / 7).as_nanos());
        assert_eq!(
            span.saturating_mul(10).as_nanos(),
            text.saturating_mul(10).as_nanos()
        );
    }
    assert!(Duration::from_secs(2).exceeds(Duration::from_millis(1_999)));
    assert_eq!(
        Duration::from_secs(2).max(Duration::from_secs(3)),
        Duration::from_secs(3)
    );
    assert_eq!(Duration::new(3, 4).subsec_nanos(), 4);
    assert_eq!(Duration::new(3, 4).as_secs(), 3);
}

#[test]
fn receipts_keep_the_readings_they_are_given() {
    let begun = ActionReceipt::begin_at(10, "press");
    assert_eq!(
        (begun.gesture_started_ns(), begun.triggered_ns(), begun.completed_ns()),
        (10, 10, 10)
    );
    let finished = begun.trigger_at(12).finish_at(15);
    assert_eq!(
        (finished.gesture_started_ns(), finished.triggered_ns(), finished.completed_ns()),
        (10, 12, 15)
    );
    assert_eq!(finished.action(), "press");
}
