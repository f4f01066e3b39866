use display_platform::clock::{TickClock, TICK_PERIOD_MS};
use display_platform::framebuffer::{FrameBuffer, Rect, RowBlit};
use display_platform::pixel::to_wire;
use display_platform::platform::{
    EspPlatform, IdleAction, LoopPhase, PanelCommand, PlatformError, DISPLAY_HEIGHT,
    DISPLAY_WIDTH,
};
use display_platform::touch::{LogicalPoint, PointerEvent, PointerState, TouchSample};
use display_platform::ui_model::{create_slint_app, sensor_status, SensorStatus};

fn pressed(x: i32, y: i32) -> Option<TouchSample> {
    Some(TouchSample { x, y, pressed: true, count: 1 })
}

fn released() -> Option<TouchSample> {
    Some(TouchSample { x: 0, y: 0, pressed: false, count: 1 })
}

fn pt(x: i32, y: i32) -> LogicalPoint {
    LogicalPoint { x, y }
}

fn numbered(width: usize, height: usize) -> FrameBuffer {
    let mut fb = FrameBuffer::new(width, height);
    for (i, p) in fb.pixels_mut().iter_mut().enumerate() {
        *p = 0x0100 + i as u16;
    }
    fb
}

#[test]
fn wire_order_swaps_bytes() {
    assert_eq!(to_wire(0xAABB), 0xBBAA);
    assert_eq!(to_wire(0x00FF), 0xFF00);
    assert_eq!(to_wire(0x1234), 0x3412);
    assert_eq!(to_wire(0), 0);
}

#[test]
fn wire_order_twice_is_identity() {
    for v in [0u16, 1, 0xAABB, 0x1234, 0xFFFF, 0x8001] {
        assert_eq!(to_wire(to_wire(v)), v);
    }
}

#[test]
fn regions_transcoded_once_and_rest_untouched() {
    let mut fb = numbered(8, 6);
    let before: Vec<u16> = fb.pixels().to_vec();
    let regions = vec![
        Rect { x: 1, y: 1, width: 3, height: 2 },
        Rect { x: 5, y: 2, width: 2, height: 3 },
    ];
    assert!(fb.accepts_regions(&regions));
    let blits = fb.transcode_regions(&regions);
    for y in 0..6usize {
        for x in 0..8usize {
            let i = y * 8 + x;
            let inside = regions
                .iter()
                .any(|r| r.x <= x && x < r.x + r.width && r.y <= y && y < r.y + r.height);
            let want = if inside { before[i].swap_bytes() } else { before[i] };
            assert_eq!(fb.pixels()[i], want, "pixel ({}, {})", x, y);
        }
    }
    assert_eq!(
        blits,
        vec![
            RowBlit { x0: 1, y0: 1, x1: 4, y1: 2, offset: 9 },
            RowBlit { x0: 1, y0: 2, x1: 4, y1: 3, offset: 17 },
            RowBlit { x0: 5, y0: 2, x1: 7, y1: 3, offset: 21 },
            RowBlit { x0: 5, y0: 3, x1: 7, y1: 4, offset: 29 },
            RowBlit { x0: 5, y0: 4, x1: 7, y1: 5, offset: 37 },
        ]
    );
}

#[test]
fn whole_surface_region() {
    let mut fb = numbered(4, 3);
    let before: Vec<u16> = fb.pixels().to_vec();
    let regions = vec![Rect { x: 0, y: 0, width: 4, height: 3 }];
    let blits = fb.transcode_regions(&regions);
    let want: Vec<u16> = before.iter().map(|p| p.swap_bytes()).collect();
    assert_eq!(fb.pixels().to_vec(), want);
    assert_eq!(blits.len(), 3);
    assert_eq!(blits[2], RowBlit { x0: 0, y0: 2, x1: 4, y1: 3, offset: 8 });
}

#[test]
fn no_regions_no_blit() {
    let mut fb = numbered(5, 5);
    let before: Vec<u16> = fb.pixels().to_vec();
    let blits = fb.transcode_regions(&Vec::new());
    assert!(blits.is_empty());
    assert_eq!(fb.pixels().to_vec(), before);
}

#[test]
fn empty_rectangles_leave_pixels() {
    let mut fb = numbered(5, 5);
    let before: Vec<u16> = fb.pixels().to_vec();
    let regions = vec![Rect { x: 2, y: 2, width: 0, height: 3 }, Rect { x: 5, y: 1, width: 0, height: 0 }];
    assert!(fb.accepts_regions(&regions));
    let blits = fb.transcode_regions(&regions);
    assert_eq!(blits.len(), 3);
    assert_eq!(fb.pixels().to_vec(), before);
}

#[test]
fn overlapping_or_outside_regions_rejected() {
    let fb = FrameBuffer::new(10, 10);
    let overlap = vec![
        Rect { x: 0, y: 0, width: 5, height: 5 },
        Rect { x: 4, y: 4, width: 2, height: 2 },
    ];
    assert!(!fb.accepts_regions(&overlap));
    let touching = vec![
        Rect { x: 0, y: 0, width: 5, height: 5 },
        Rect { x: 5, y: 0, width: 5, height: 5 },
    ];
    assert!(fb.accepts_regions(&touching));
    let outside = vec![Rect { x: 8, y: 0, width: 3, height: 1 }];
    assert!(!fb.accepts_regions(&outside));
    let too_tall = vec![Rect { x: 0, y: 9, width: 1, height: 2 }];
    assert!(!fb.accepts_regions(&too_tall));
}

#[test]
fn new_framebuffer_is_black() {
    let fb = FrameBuffer::new(3, 2);
    assert_eq!(fb.width(), 3);
    assert_eq!(fb.height(), 2);
    assert_eq!(fb.pixels().to_vec(), vec![0u16; 6]);
}

#[test]
fn touch_press_move_release_sequence() {
    let mut s = PointerState::new();
    let mut events = Vec::new();
    events.extend(s.handle_sample(pressed(10, 10)));
    events.extend(s.handle_sample(pressed(10, 12)));
    events.extend(s.handle_sample(released()));
    assert_eq!(
        events,
        vec![
            PointerEvent::Moved(pt(10, 10)),
            PointerEvent::Pressed(pt(10, 10)),
            PointerEvent::Moved(pt(10, 12)),
            PointerEvent::Released(pt(10, 12)),
            PointerEvent::Exited,
        ]
    );
    assert!(!s.is_down);
}

#[test]
fn no_contact_while_up_gives_nothing() {
    let mut s = PointerState::new();
    assert!(s.handle_sample(None).is_empty());
    assert!(s.handle_sample(released()).is_empty());
    assert_eq!(s, PointerState::new());
}

#[test]
fn lost_contact_while_down_releases() {
    let mut s = PointerState::new();
    s.handle_sample(pressed(3, 4));
    let events = s.handle_sample(None);
    assert_eq!(events, vec![PointerEvent::Released(pt(3, 4)), PointerEvent::Exited]);
    assert!(s.handle_sample(None).is_empty());
}

#[test]
fn repeated_press_at_same_point_presses_once() {
    let mut s = PointerState::new();
    let first = s.handle_sample(pressed(7, 7));
    let second = s.handle_sample(pressed(7, 7));
    assert_eq!(first, vec![PointerEvent::Moved(pt(7, 7)), PointerEvent::Pressed(pt(7, 7))]);
    assert_eq!(second, vec![PointerEvent::Moved(pt(7, 7))]);
    let all: Vec<PointerEvent> = first.into_iter().chain(second).collect();
    assert_eq!(all.iter().filter(|e| matches!(e, PointerEvent::Pressed(_))).count(), 1);
}

#[test]
fn controller_read_to_sample() {
    assert_eq!(TouchSample::from_controller(false, 5, 6, 1, true), None);
    assert_eq!(TouchSample::from_controller(true, 5, 6, 0, true), None);
    assert_eq!(
        TouchSample::from_controller(true, 5, 6, 2, true),
        Some(TouchSample { x: 5, y: 6, pressed: true, count: 2 })
    );
    assert_eq!(
        TouchSample::from_controller(true, 5, 6, 1, false),
        Some(TouchSample { x: 5, y: 6, pressed: false, count: 1 })
    );
}

#[test]
fn clock_converts_ticks_to_millis() {
    let mut c = TickClock::new(TICK_PERIOD_MS);
    assert_eq!(c.duration_since_start(0), 0);
    assert_eq!(c.duration_since_start(5), 50);
    assert_eq!(c.duration_since_start(123), 1230);
}

#[test]
fn clock_never_goes_backwards() {
    let mut c = TickClock::new(TICK_PERIOD_MS);
    let mut last = 0u64;
    for raw in [0u32, 1, 1, 100, 4_000_000_000, u32::MAX, 0, 3, 3] {
        let now = c.duration_since_start(raw);
        assert!(now >= last);
        last = now;
    }
    assert_eq!(last, (u32::MAX as u64 + 4) * 10);
}

#[test]
fn clock_saturates() {
    let mut c = TickClock { last_raw: 0, elapsed_ticks: u64::MAX - 1, ms_per_tick: 10 };
    assert_eq!(c.duration_since_start(5), u64::MAX);
    assert_eq!(c.elapsed_ticks, u64::MAX);
    assert_eq!(c.duration_since_start(6), u64::MAX);
}

#[test]
fn panel_init_failure_stops_before_loop() {
    let mut p = EspPlatform::new();
    assert_eq!(p.phase(), LoopPhase::Boot);
    let r = p.begin_event_loop(-1);
    assert_eq!(r, Err(PlatformError::PanelInitFailed(-1)));
    assert_eq!(p.phase(), LoopPhase::Failed);
}

#[test]
fn panel_init_success_enters_loop() {
    let mut p = EspPlatform::new();
    let r = p.begin_event_loop(0);
    assert_eq!(
        r,
        Ok(vec![PanelCommand::DisplayOnOff(true), PanelCommand::Mirror(true, true)])
    );
    assert_eq!(p.phase(), LoopPhase::Running);
}

#[test]
fn platform_cycle() {
    let mut p = EspPlatform::new();
    p.begin_event_loop(0).unwrap();
    assert_eq!(p.duration_since_start(7), 70);
    assert_eq!(
        p.poll_touch(pressed(1, 2)),
        vec![PointerEvent::Moved(pt(1, 2)), PointerEvent::Pressed(pt(1, 2))]
    );
    assert!(p.render_regions(&Vec::new()).is_empty());
    p.framebuffer_mut().pixels_mut()[DISPLAY_WIDTH + 3] = 0x1234;
    let blits = p.render_regions(&vec![Rect { x: 3, y: 1, width: 2, height: 1 }]);
    assert_eq!(blits, vec![RowBlit { x0: 3, y0: 1, x1: 5, y1: 2, offset: DISPLAY_WIDTH + 3 }]);
    assert_eq!(p.framebuffer().pixels()[DISPLAY_WIDTH + 3], 0x3412);
    assert_eq!(p.framebuffer().pixels().len(), DISPLAY_WIDTH * DISPLAY_HEIGHT);
}

#[test]
fn transfer_size_is_whole_frame() {
    assert_eq!(EspPlatform::max_transfer_size(), 320 * 240 * 2);
}

#[test]
fn idle_waits_only_without_animations() {
    assert_eq!(EspPlatform::idle_action(true), IdleAction::Continue);
    assert_eq!(EspPlatform::idle_action(false), IdleAction::Wait);
}

#[test]
fn counter_starts_at_zero_and_increases() {
    let mut app = create_slint_app();
    assert_eq!(app.counter, 0);
    app.request_increase_value();
    app.request_increase_value();
    assert_eq!(app.counter, 2);
}

#[test]
fn missing_reading_is_an_error() {
    assert_eq!(sensor_status::<u32>(&None), SensorStatus::Error);
    assert_eq!(sensor_status(&Some(21u32)), SensorStatus::Valid);
}
