use zfs_io::app_state::{
    next_screen, poll_exit_key, AppState, KeyCode, KeyEvent, LoopAction, LoopEvent, Screen,
};
use zfs_io::clock::{Duration, Instant};
use zfs_io::config::CollectorConfig;
use zfs_io::drawing::{
    dashboard_rows, draw_chart, draw_once, events_text, fill_dashboard, status, Area, AxisExtent, Border,
    ChartAxis, ColumnWidth, DashboardRows, Line, LineColor, Piece, Widget,
};
use zfs_io::mock::{MockCollector, WAVE_TOP};
use zfs_io::model::{EventRecord, EventSeverity, UiSnapshot};
use zfs_io::quantity::Quantity;
use zfs_io::series::TimeSeries;

const NOW: Instant = Instant { nanos: 1_000_000_000 };

fn snapshot() -> UiSnapshot {
    MockCollector::new(CollectorConfig::default()).next_snapshot(NOW, WAVE_TOP / 2)
}

fn state_on(screen: Screen) -> AppState {
    AppState { screen, paused: false, last_snapshot: Some(snapshot()) }
}

/// A number of halves, as the middle of the wave gives it.
fn half(numerator: u128) -> Quantity {
    Quantity::Fraction { numerator: numerator * (WAVE_TOP / 2), denominator: WAVE_TOP }
}

fn area() -> Area {
    Area { x: 2, y: 1, width: 80, height: 40 }
}

fn text(content: &str) -> Vec<Piece> {
    vec![Piece::Text(content.to_string())]
}

#[test]
fn key_bindings_change_screen_and_pause() {
    let mut state: AppState = AppState::default();
    assert!(!state.handle_key(KeyCode::Char('2')));
    assert_eq!(state.screen, Screen::Pools);
    assert!(!state.handle_key(KeyCode::Char(' ')));
    assert!(state.paused);
    assert!(state.handle_key(KeyCode::Char('q')));
}

#[test]
fn every_key_has_its_effect() {
    let mut state: AppState = AppState::default();
    for (key, screen) in [
        ('?', Screen::Help),
        ('1', Screen::Dashboard),
        ('2', Screen::Pools),
        ('3', Screen::Arc),
        ('4', Screen::Events),
    ] {
        assert!(!state.handle_key(KeyCode::Char(key)));
        assert_eq!(state.screen, screen);
    }
    assert!(!state.handle_key(KeyCode::Char('5')));
    assert!(!state.handle_key(KeyCode::Other));
    assert_eq!(state.screen, Screen::Events);
    assert!(!state.paused);
    assert!(state.handle_key(KeyCode::Esc));
    assert_eq!(state.screen, Screen::Events);
}

#[test]
fn tab_cycles_through_four_screens() {
    let mut state: AppState = AppState::default();
    let mut seen = Vec::new();
    for _ in 0..4 {
        state.handle_key(KeyCode::Tab);
        seen.push(state.screen);
    }
    assert_eq!(seen, vec![Screen::Pools, Screen::Arc, Screen::Events, Screen::Dashboard]);
    assert_eq!(next_screen(Screen::Help), Screen::Dashboard);
}

#[test]
fn space_pauses_and_resumes() {
    let mut state: AppState = AppState::default();
    state.handle_key(KeyCode::Char(' '));
    state.receive(Some(snapshot()));
    assert!(state.last_snapshot.is_none());
    state.handle_key(KeyCode::Char(' '));
    assert!(!state.paused);
    state.receive(None);
    assert!(state.last_snapshot.is_none());
    state.receive(Some(snapshot()));
    assert!(state.last_snapshot.is_some());
}

#[test]
fn only_pressed_keys_count() {
    let mut state: AppState = AppState::default();
    assert!(!poll_exit_key(&mut state, None));
    let quit = KeyEvent { code: KeyCode::Char('q'), pressed: false };
    assert!(!poll_exit_key(&mut state, Some(quit)));
    let help = KeyEvent { code: KeyCode::Char('?'), pressed: false };
    assert!(!poll_exit_key(&mut state, Some(help)));
    assert_eq!(state.screen, Screen::Dashboard);
    let quit = KeyEvent { code: KeyCode::Esc, pressed: true };
    assert!(poll_exit_key(&mut state, Some(quit)));
}

#[test]
fn main_loop_follows_events() {
    let mut state: AppState = AppState::default();
    assert_eq!(state.step(LoopEvent::Sample(Some(snapshot()))), LoopAction::Wait);
    assert!(state.last_snapshot.is_some());
    assert_eq!(state.step(LoopEvent::Sample(None)), LoopAction::Wait);
    assert!(state.last_snapshot.is_some());
    assert_eq!(state.step(LoopEvent::RenderTick), LoopAction::DrawAndPoll);
    assert_eq!(state.step(LoopEvent::Polled(None)), LoopAction::Wait);
    let key = KeyEvent { code: KeyCode::Char('3'), pressed: true };
    assert_eq!(state.step(LoopEvent::Polled(Some(key))), LoopAction::Wait);
    assert_eq!(state.screen, Screen::Arc);
    let key = KeyEvent { code: KeyCode::Char('q'), pressed: true };
    assert_eq!(state.step(LoopEvent::Polled(Some(key))), LoopAction::Quit);
    assert_eq!(state.step(LoopEvent::Interrupt), LoopAction::Quit);
}

#[test]
fn status_tells_how_current_the_telemetry_is() {
    let mut state: AppState = AppState::default();
    assert_eq!(status(&state, NOW), "waiting for samples");
    state.receive(Some(snapshot()));
    assert_eq!(status(&state, NOW), "live");
    let late = NOW.checked_add(Duration::from_secs(6)).unwrap();
    assert_eq!(status(&state, late), "stale");
    state.handle_key(KeyCode::Char(' '));
    assert_eq!(status(&state, late), "paused");
}

#[test]
fn dashboard_is_filled_from_top_to_bottom() {
    let row = |y: u16| Area { x: 0, y, width: 10, height: 1 };
    let rows = DashboardRows { header: row(0), chart: row(1), pools: row(2), events: row(3) };
    let drawn = fill_dashboard(rows, &state_on(Screen::Dashboard), NOW);
    assert_eq!(drawn.len(), 4);
    for (index, drawing) in drawn.iter().enumerate() {
        assert_eq!(drawing.area, row(index as u16));
    }
    assert_eq!(
        drawn[0].widget,
        Widget::Paragraph {
            text: text(
                "zfs-io | Dashboard | live | 1 dashboard 2 pools 3 arc 4 events ? help q quit"
            ),
            border: Border::Plain,
        }
    );
    assert_eq!(
        drawn[1].widget,
        Widget::Chart {
            lines: vec![
                Line {
                    name: "read",
                    color: LineColor::Blue,
                    points: vec![(Duration { nanos: 0 }, snapshot().pools[0].read_bytes_per_sec)],
                },
                Line {
                    name: "write",
                    color: LineColor::Yellow,
                    points: vec![(Duration { nanos: 0 }, snapshot().pools[0].write_bytes_per_sec)],
                },
            ],
            across: ChartAxis {
                extent: AxisExtent::Exactly(60),
                first_label: "0s",
                last_label: "60s",
            },
            up: ChartAxis {
                extent: AxisExtent::LargestValueOr(1),
                first_label: "0",
                last_label: "max",
            },
            border: Border::Titled("Throughput"),
        }
    );
    assert_eq!(
        drawn[3].widget,
        Widget::Paragraph {
            text: text("info: mock collector active; no ZFS commands are being run"),
            border: Border::Titled("Events"),
        }
    );
}

#[test]
fn a_chart_can_go_without_title() {
    let drawn = draw_chart(area(), &state_on(Screen::Dashboard), false);
    assert!(matches!(drawn.widget, Widget::Chart { border: Border::Plain, .. }));
}

#[test]
fn the_upward_axis_has_room_for_every_point() {
    let mut state = state_on(Screen::Dashboard);
    let tops = |state: &AppState| {
        let Widget::Chart { lines, up, .. } = draw_chart(area(), state, true).widget else {
            panic!("expected a chart");
        };
        let AxisExtent::LargestValueOr(least) = up.extent else {
            panic!("expected an axis that grows");
        };
        let largest = lines
            .iter()
            .flat_map(|line| line.points.iter())
            .map(|(_, value)| match value {
                Quantity::Fraction { numerator, denominator } => {
                    *numerator as f64 / *denominator as f64
                }
                _ => 0.0,
            })
            .fold(least as f64, f64::max);
        (least, largest)
    };
    assert_eq!(tops(&state), (1, 200_000_000.0));
    if let Some(snapshot) = &mut state.last_snapshot {
        snapshot.read_history = TimeSeries::default();
        snapshot.write_history = TimeSeries::default();
        snapshot.read_history.push(NOW, Quantity::Fraction { numerator: 1, denominator: 2 });
    }
    assert_eq!(tops(&state), (1, 1.0));
}

#[test]
fn pools_screen_shows_a_table() {
    let drawn = draw_once(area(), &state_on(Screen::Pools), NOW);
    assert_eq!(drawn.len(), 1);
    assert_eq!(drawn[0].area, area());
    let Widget::Table { columns, rows, border } = &drawn[0].widget else {
        panic!("expected a table");
    };
    assert_eq!(*border, Border::Titled("Pools"));
    let headings: Vec<&str> = columns.iter().map(|column| column.heading).collect();
    assert_eq!(headings, vec!["pool", "state", "cap", "r iops", "w iops", "errors", "status"]);
    let widths: Vec<ColumnWidth> = columns.iter().map(|column| column.width).collect();
    assert_eq!(widths[0], ColumnWidth::Exactly(16));
    assert_eq!(widths[1], ColumnWidth::Exactly(10));
    assert_eq!(widths[5], ColumnWidth::Exactly(8));
    assert_eq!(widths[6], ColumnWidth::AtLeast(12));
    assert_eq!(
        *rows,
        vec![vec![
            Piece::Text("tank".to_string()),
            Piece::Text("ONLINE".to_string()),
            Piece::Percent(half(126)),
            Piece::Whole(half(2_800)),
            Piece::Whole(half(1_400)),
            Piece::Text("0".to_string()),
            Piece::Text("mock telemetry".to_string()),
        ]]
    );
}

#[test]
fn arc_screen_shows_sizes_and_ratios() {
    let drawn = draw_once(area(), &state_on(Screen::Arc), NOW);
    assert_eq!(
        drawn[0].widget,
        Widget::Paragraph {
            text: vec![
                Piece::Text("ARC size: ".to_string()),
                Piece::Gibibytes(32 * 1024 * 1024 * 1024),
                Piece::Text(" GiB\nARC target: ".to_string()),
                Piece::Gibibytes(48 * 1024 * 1024 * 1024),
                Piece::Text(" GiB\nHit ratio: ".to_string()),
                Piece::ShareAsPercent(snapshot().arc.hit_ratio),
                Piece::Text("\nMiss ratio: ".to_string()),
                Piece::ShareAsPercent(snapshot().arc.miss_ratio),
            ],
            border: Border::Titled("ARC/L2ARC"),
        }
    );
}

#[test]
fn help_screen_lists_the_keys() {
    let drawn = draw_once(area(), &state_on(Screen::Help), NOW);
    let Widget::Paragraph { text, border } = &drawn[0].widget else {
        panic!("expected a paragraph");
    };
    assert_eq!(*border, Border::Titled("Help"));
    let Piece::Text(help) = &text[0] else {
        panic!("expected text");
    };
    assert!(help.starts_with("q/Esc quit\nSpace pause/resume\nTab next screen\n"));
    assert!(help.ends_with("use bounded work, and skip late results."));
}

#[test]
fn screens_wait_for_telemetry() {
    let empty = |screen: Screen| AppState { screen, paused: false, last_snapshot: None };
    for (screen, message) in [
        (Screen::Pools, "waiting for pool telemetry"),
        (Screen::Arc, "waiting for ARC telemetry"),
        (Screen::Events, "waiting for events"),
    ] {
        let drawn = draw_once(area(), &empty(screen), NOW);
        assert_eq!(
            drawn[0].widget,
            Widget::Paragraph { text: text(message), border: Border::Bare }
        );
    }
    let chart = draw_chart(area(), &empty(Screen::Dashboard), true);
    assert_eq!(
        chart.widget,
        Widget::Paragraph { text: text("waiting for telemetry"), border: Border::Bare }
    );
}

#[test]
fn events_are_newest_first_and_at_most_six() {
    let severities = [EventSeverity::Info, EventSeverity::Warning, EventSeverity::Error];
    let events: Vec<EventRecord> = (0..8)
        .map(|index| EventRecord {
            timestamp: NOW,
            severity: severities[index % 3],
            message: format!("event {index}"),
        })
        .collect();
    assert_eq!(
        events_text(&events),
        "warn: event 7\ninfo: event 6\nerror: event 5\nwarn: event 4\ninfo: event 3\nerror: event 2"
    );
    assert_eq!(events_text(&Vec::new()), "");
    assert_eq!(events_text(&events[..1].to_vec()), "info: event 0");
}

#[test]
fn dashboard_rows_divide_the_area() {
    let rows = dashboard_rows(Area { x: 3, y: 5, width: 90, height: 100 });
    assert_eq!(rows.header, Area { x: 3, y: 5, width: 90, height: 3 });
    assert_eq!(rows.chart, Area { x: 3, y: 8, width: 90, height: 45 });
    assert_eq!(rows.pools, Area { x: 3, y: 53, width: 90, height: 35 });
    assert_eq!(rows.events, Area { x: 3, y: 88, width: 90, height: 17 });
}

#[test]
fn drawings_stay_inside_the_area() {
    for y in [0u16, 1, 7, 65_500] {
        for height in 0..70u16 {
            let outer = Area { x: 4, y, width: 33, height };
            for drawing in draw_once(outer, &state_on(Screen::Dashboard), NOW) {
                assert_eq!(drawing.area.x, outer.x);
                assert_eq!(drawing.area.width, outer.width);
                assert!(drawing.area.y >= outer.y);
                assert!(
                    drawing.area.y as u32 + drawing.area.height as u32 <= y as u32 + height as u32
                );
            }
        }
    }
}
