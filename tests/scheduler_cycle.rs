use yactatt::color::rgb_from_hex;
use yactatt::layout::{frame_texts, row_texts, Font, TextItem};
use yactatt::outcome::{classify_response, FailureKind, FetchOutcome, ServiceError};
use yactatt::record::{ArrivalRecord, VehicleKind};
use yactatt::scheduler::{Action, Event, Phase, Scheduler};
use yactatt::splash::splash_frame;

fn rec(route: &str, eta: &str, dest: &str) -> ArrivalRecord {
    ArrivalRecord {
        route: route.to_string(),
        destination: dest.to_string(),
        eta: eta.to_string(),
        vehicle_kind: VehicleKind::Bus,
        delayed: false,
    }
}

fn no_service() -> FetchOutcome {
    FetchOutcome::ServiceErrors(vec![ServiceError {
        route: "50".to_string(),
        stop: "1802".to_string(),
        message: "No service scheduled".to_string(),
    }])
}

fn texts(items: &[TextItem]) -> Vec<(String, i32, i32)> {
    items.iter().map(|t| (t.text.clone(), t.x, t.y)).collect()
}

fn drawn(a: Action) -> Vec<TextItem> {
    match a {
        Action::Draw(items) => items,
        other => panic!("expected a frame, got {:?}", other),
    }
}

/// A displaying scheduler that has shown one cycle of arrivals.
fn showing(rows: Vec<ArrivalRecord>) -> Scheduler {
    let mut s = Scheduler::new(false, 60_000);
    assert!(matches!(s.step(Event::Tick { now_ms: 1_000 }), Action::Fetch));
    drawn(s.step(Event::Fetched { outcome: FetchOutcome::Arrivals(rows) }));
    assert!(matches!(s.step(Event::Swapped { now_ms: 61_001 }), Action::ClearToBlack));
    assert!(matches!(s.step(Event::Tick { now_ms: 61_002 }), Action::Fetch));
    s
}

#[test]
fn row_has_three_columns() {
    let items = row_texts(&rec("50", "3", "Archer"), 1, 6);
    assert_eq!(
        texts(&items),
        vec![("50".to_string(), 1, 6), ("3".to_string(), 11, 6), ("Archer".to_string(), 21, 6)]
    );
    assert_eq!(items[0].color, rgb_from_hex(0xffa600));
    assert_eq!(items[1].color, rgb_from_hex(0xffffff));
    assert_eq!(items[2].color, rgb_from_hex(0x565a5c));
    assert_ne!(items[0].color, items[1].color);
    assert_ne!(items[1].color, items[2].color);
    assert_ne!(items[0].color, items[2].color);
    assert_eq!(items[2].font, Font::Small);
}

#[test]
fn frame_rows_step_down_from_top_margin() {
    let rows = vec![rec("50", "DUE", "Foster"), rec("50", "3", "Archer"), rec("52", "8", "Kedzie")];
    let items = frame_texts(&rows);
    assert_eq!(items.len(), 9);
    assert_eq!((items[0].x, items[0].y), (1, 6));
    assert_eq!((items[3].x, items[3].y), (1, 12));
    assert_eq!((items[8].text.as_str(), items[8].x, items[8].y), ("Kedzie", 21, 18));
}

#[test]
fn fetched_arrivals_are_drawn_sorted() {
    let mut s = Scheduler::new(false, 60_000);
    assert!(matches!(s.step(Event::Tick { now_ms: 0 }), Action::Fetch));
    assert_eq!(s.phase, Phase::Fetching);
    let items = drawn(s.step(Event::Fetched {
        outcome: FetchOutcome::Arrivals(vec![rec("50", "3", "Archer"), rec("50", "DUE", "Foster")]),
    }));
    assert_eq!(s.phase, Phase::Rendering);
    assert_eq!(items[1].text, "DUE");
    assert_eq!(items[4].text, "3");
}

#[test]
fn rendering_repeats_until_interval_passes() {
    let mut s = Scheduler::new(false, 60_000);
    s.step(Event::Tick { now_ms: 10 });
    drawn(s.step(Event::Fetched { outcome: FetchOutcome::Arrivals(vec![rec("50", "3", "Archer")]) }));
    assert_eq!(drawn(s.step(Event::Swapped { now_ms: 30_000 })).len(), 3);
    assert_eq!(drawn(s.step(Event::Swapped { now_ms: 60_010 })).len(), 3);
    assert!(matches!(s.step(Event::Swapped { now_ms: 60_011 }), Action::ClearToBlack));
    assert_eq!(s.phase, Phase::Idle);
    assert!(matches!(s.step(Event::Tick { now_ms: 60_012 }), Action::Fetch));
    assert_eq!(s.cycle_start_ms, 60_012);
}

#[test]
fn service_errors_keep_previous_frame() {
    let mut s = showing(vec![rec("50", "3", "Archer")]);
    let before = texts(&frame_texts(&s.rows));
    match s.step(Event::Fetched { outcome: no_service() }) {
        Action::Report(FetchOutcome::ServiceErrors(e)) => assert_eq!(e.len(), 1),
        other => panic!("expected a report, got {:?}", other),
    }
    assert_eq!(s.phase, Phase::Idle);
    assert_eq!(texts(&frame_texts(&s.rows)), before);
    match s.step(Event::Tick { now_ms: 70_000 }) {
        Action::Sleep(ms) => assert_eq!(ms, 51_002),
        other => panic!("expected sleep, got {:?}", other),
    }
    assert!(matches!(s.step(Event::Tick { now_ms: 121_002 }), Action::Fetch));
}

#[test]
fn decode_error_keeps_frame_and_cycle_goes_on() {
    let mut s = showing(vec![rec("50", "4", "Archer")]);
    let outcome = classify_response(200, None);
    assert!(matches!(outcome, FetchOutcome::TransportFailure(FailureKind::DecodeError)));
    assert!(matches!(
        s.step(Event::Fetched { outcome }),
        Action::Report(FetchOutcome::TransportFailure(FailureKind::DecodeError))
    ));
    assert_eq!(s.rows[0].eta, "4");
    assert!(matches!(s.step(Event::Tick { now_ms: 62_000 }), Action::Sleep(_)));
    assert!(matches!(s.step(Event::Tick { now_ms: 121_002 }), Action::Fetch));
    assert_eq!(s.cycle_start_ms, 121_002);
}

#[test]
fn empty_arrivals_keep_previous_frame() {
    let mut s = showing(vec![rec("50", "5", "Archer")]);
    assert!(matches!(
        s.step(Event::Fetched { outcome: FetchOutcome::Arrivals(Vec::new()) }),
        Action::Report(FetchOutcome::Arrivals(_))
    ));
    assert_eq!(s.rows[0].destination, "Archer");
    assert_eq!(s.phase, Phase::Idle);
}

#[test]
fn failures_never_touch_the_panel() {
    let failures = vec![
        FailureKind::BadRequest,
        FailureKind::Unauthorized,
        FailureKind::DecodeError,
        FailureKind::Unclassified,
    ];
    for kind in failures {
        let mut s = Scheduler::new(false, 60_000);
        assert!(matches!(s.step(Event::Tick { now_ms: 0 }), Action::Fetch));
        match s.step(Event::Fetched { outcome: FetchOutcome::TransportFailure(kind) }) {
            Action::Report(FetchOutcome::TransportFailure(k)) => assert_eq!(k, kind),
            other => panic!("expected a report, got {:?}", other),
        }
        assert!(s.rows.is_empty());
        assert!(matches!(s.step(Event::Tick { now_ms: 10 }), Action::Sleep(59_990)));
    }
}

#[test]
fn headless_reports_once_and_never_draws() {
    let mut s = Scheduler::new(true, 60_000);
    let mut reports = 0;
    let mut draws = 0;
    let mut events = vec![
        Event::Tick { now_ms: 0 },
        Event::Fetched { outcome: no_service() },
        Event::Tick { now_ms: 1_000 },
        Event::Tick { now_ms: 30_000 },
        Event::Swapped { now_ms: 40_000 },
    ];
    for e in events.drain(..) {
        match s.step(e) {
            Action::Report(FetchOutcome::ServiceErrors(v)) => {
                assert_eq!(v.len(), 1);
                reports += 1;
            },
            Action::Report(other) => panic!("unexpected report {:?}", other),
            Action::Draw(_) | Action::ClearToBlack => draws += 1,
            _ => {},
        }
    }
    assert_eq!(reports, 1);
    assert_eq!(draws, 0);
}

#[test]
fn headless_waits_for_interval() {
    let mut s = Scheduler::new(true, 60_000);
    assert!(matches!(s.step(Event::Tick { now_ms: 5_000 }), Action::Fetch));
    assert!(matches!(s.step(Event::Fetched { outcome: no_service() }), Action::Report(_)));
    assert_eq!(s.phase, Phase::Idle);
    match s.step(Event::Tick { now_ms: 25_000 }) {
        Action::Sleep(ms) => assert_eq!(ms, 40_000),
        other => panic!("expected sleep, got {:?}", other),
    }
    assert!(matches!(s.step(Event::Tick { now_ms: 65_000 }), Action::Fetch));
}

#[test]
fn headless_report_is_sorted() {
    let mut s = Scheduler::new(true, 1_000);
    s.step(Event::Tick { now_ms: 0 });
    match s.step(Event::Fetched {
        outcome: FetchOutcome::Arrivals(vec![rec("50", "9", "a"), rec("50", "DUE", "b"), rec("50", "1", "c")]),
    }) {
        Action::Report(FetchOutcome::Arrivals(v)) => {
            let order: Vec<&str> = v.iter().map(|r| r.destination.as_str()).collect();
            assert_eq!(order, vec!["b", "c", "a"]);
        },
        other => panic!("expected a report, got {:?}", other),
    }
}

#[test]
fn events_out_of_phase_do_nothing() {
    let mut s = Scheduler::new(false, 1_000);
    assert!(matches!(s.step(Event::Swapped { now_ms: 5 }), Action::Nothing));
    assert!(matches!(s.step(Event::Fetched { outcome: no_service() }), Action::Nothing));
    assert_eq!(s.phase, Phase::Idle);
}

#[test]
fn splash_tiles_and_title() {
    let f = splash_frame(16, 64);
    assert_eq!(f.tiles.len(), 8);
    assert_eq!((f.tiles[0].x, f.tiles[0].y, f.tiles[0].width, f.tiles[0].height), (0, 0, 16, 8));
    assert_eq!(f.tiles[0].color, rgb_from_hex(0x00a1de));
    assert_eq!((f.tiles[3].x, f.tiles[3].y), (48, 0));
    assert_eq!((f.tiles[4].x, f.tiles[4].y), (0, 0));
    assert_eq!((f.tiles[5].x, f.tiles[5].y), (16, 8));
    assert_eq!(f.tiles[7].color, rgb_from_hex(0xf9e300));
    assert_eq!((f.divider.start_y, f.divider.end_x, f.divider.stroke_width), (8, 64, 12));
    assert_eq!(f.title.text, "YACTATT");
    assert_eq!((f.title.x, f.title.y), (1, 12));
    assert_eq!(f.title.font, Font::LargeBold);
}
