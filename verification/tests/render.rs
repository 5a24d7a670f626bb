use netlight::color_state::{ColorState, LockUnavailable};
use netlight::render::RenderLoop;
use netlight::rgb_led::{LogicalColor, PhysicalColor};

#[test]
fn render_loop_starts_with_outputs_off() {
    assert_eq!(RenderLoop::new().last_rendered, PhysicalColor { r: 0, g: 0, b: 0 });
}

#[test]
fn first_tick_on_black_writes_nothing() {
    let mut render = RenderLoop::new();
    assert_eq!(render.tick(Ok(LogicalColor::default())), None);
    assert_eq!(render, RenderLoop::new());
}

#[test]
fn changed_colour_is_written_once() {
    let mut render = RenderLoop::new();
    let color = LogicalColor { r: 255, g: 100, b: 1, a: 128 };
    assert_eq!(render.tick(Ok(color)), Some(PhysicalColor { r: 128, g: 50, b: 1 }));
    assert_eq!(render.last_rendered, PhysicalColor { r: 128, g: 50, b: 1 });
    assert_eq!(render.tick(Ok(color)), None);
    assert_eq!(render.tick(Ok(color)), None);
    assert_eq!(render.last_rendered, PhysicalColor { r: 128, g: 50, b: 1 });
}

#[test]
fn written_colour_has_one_duty_per_channel() {
    let mut render = RenderLoop::new();
    let write = render.tick(Ok(LogicalColor { r: 10, g: 20, b: 30, a: 255 })).unwrap();
    assert_eq!(write.duties(), [10u32, 20, 30]);
}

#[test]
fn colour_that_renders_the_same_is_not_rewritten() {
    let mut render = RenderLoop::new();
    assert_eq!(
        render.tick(Ok(LogicalColor { r: 10, g: 0, b: 0, a: 255 })),
        Some(PhysicalColor { r: 10, g: 0, b: 0 })
    );
    // Both are dark: the logical colour changes, what is rendered does not.
    assert_eq!(
        render.tick(Ok(LogicalColor { r: 10, g: 0, b: 0, a: 0 })),
        Some(PhysicalColor { r: 0, g: 0, b: 0 })
    );
    assert_eq!(render.tick(Ok(LogicalColor { r: 20, g: 5, b: 1, a: 0 })), None);
}

#[test]
fn failed_read_skips_the_tick() {
    let mut render = RenderLoop::new();
    render.tick(Ok(LogicalColor { r: 1, g: 2, b: 3, a: 255 }));
    let before = render;
    assert_eq!(render.tick(Err(LockUnavailable)), None);
    assert_eq!(render, before);
}

#[test]
fn tick_on_the_shared_record_follows_its_updates() {
    let state = ColorState::new(LogicalColor::default());
    let mut render = RenderLoop::new();
    assert_eq!(render.tick_on(&state), None);
    state.commit_udp_msg(b"r=10,g=20,b=30\n").unwrap();
    assert_eq!(render.tick_on(&state), Some(PhysicalColor { r: 10, g: 20, b: 30 }));
    assert_eq!(render.tick_on(&state), None);
    state.commit_udp_msg(b"a=0\n").unwrap();
    assert_eq!(render.tick_on(&state), Some(PhysicalColor { r: 0, g: 0, b: 0 }));
    assert_eq!(render.tick_on(&state), None);
}
