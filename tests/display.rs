use epd_display::display::{Display, Step, FRAME_BYTES};

fn cmd(c: u8) -> Vec<Step> {
    vec![Step::SetDc(false), Step::Write(vec![c]), Step::SetDc(true)]
}

fn cmd_data(c: u8, data: &[u8]) -> Vec<Step> {
    let mut v = cmd(c);
    v.push(Step::Write(data.to_vec()));
    v
}

fn wait() -> Vec<Step> {
    vec![Step::DelayMs(1), Step::WaitWhileBusy]
}

fn activate(mode: u8) -> Vec<Step> {
    [cmd_data(0x22, &[mode]), cmd(0x20), wait()].concat()
}

fn window(x_lo: u8, x_end: u8, y_lo: u16, y_end: u16) -> Vec<Step> {
    [
        cmd_data(0x11, &[0x03]),
        cmd_data(0x44, &[x_lo, x_end]),
        cmd_data(0x45, &[(y_lo % 256) as u8, (y_lo / 256) as u8, (y_end % 256) as u8, (y_end % 256) as u8]),
        cmd_data(0x4E, &[x_lo]),
        cmd_data(0x4F, &[(y_lo % 256) as u8, (y_lo / 256) as u8]),
    ]
    .concat()
}

fn init_display() -> Vec<Step> {
    [
        cmd_data(0x01, &[0xC7, 0x00, 0x00]),
        cmd_data(0x18, &[0x80]),
        cmd_data(0x3C, &[0x05]),
        window(0, 24, 0, 199),
    ]
    .concat()
}

fn fill(c: u8, value: u8) -> Vec<Step> {
    let mut v = cmd(c);
    v.push(Step::Fill { value, count: FRAME_BYTES });
    v
}

fn settle(start: Display, plan: &[Step]) -> Display {
    let mut s = start;
    for step in plan {
        if let Step::State(t) = step {
            s = *t;
        }
    }
    s
}

fn count_bitmap_writes(plan: &[Step]) -> usize {
    plan.iter().filter(|s| **s == Step::WriteBitmap).count()
}

fn position(plan: &[Step], pattern: &[Step]) -> Option<usize> {
    plan.windows(pattern.len()).position(|w| w == pattern)
}

fn state(power_is_on: bool, initialized: bool, initial_refresh: bool, initial_write: bool) -> Display {
    Display { power_is_on, initialized, initial_refresh, initial_write }
}

#[test]
fn construct_sets_fresh_flags_and_idle_lines() {
    let (display, plan) = Display::new();
    assert!(display.initial_refresh);
    assert!(display.initial_write);
    assert!(!display.power_is_on);
    assert!(!display.initialized);
    assert_eq!(plan, vec![Step::SetDc(true), Step::SetRst(true)]);
}

#[test]
fn reset_pulses_the_reset_line() {
    let (display, _) = Display::new();
    let plan = display.reset();
    assert_eq!(
        plan,
        vec![Step::SetRst(false), Step::DelayMs(10), Step::SetRst(true), Step::DelayMs(10)]
    );
    assert_eq!(settle(display, &plan), display);
}

#[test]
fn draw_full_screen_on_fresh_display_sends_exact_sequence() {
    let (display, _) = Display::new();
    let plan = display.draw_image(0, 0, 200, 200);
    let on = state(true, false, true, true);
    let up = state(true, true, true, true);
    let written = state(true, true, true, false);
    let refreshed = state(true, true, false, false);
    let expected: Vec<Step> = [
        init_display(),
        activate(0xF8),
        vec![Step::State(on), Step::State(up)],
        fill(0x26, 0xFF),
        vec![Step::State(written)],
        window(0, 24, 0, 199),
        cmd(0x24),
        vec![Step::WriteBitmap],
        vec![Step::State(refreshed)],
        activate(0xF4),
        window(0, 24, 0, 199),
        cmd(0x24),
        vec![Step::WriteBitmap],
    ]
    .concat();
    assert_eq!(plan, expected);
    assert_eq!(count_bitmap_writes(&plan), 2);
    assert_eq!(plan.windows(3).filter(|w| *w == cmd(0x24).as_slice()).count(), 2);
    assert_eq!(plan.windows(3).filter(|w| *w == cmd(0x26).as_slice()).count(), 1);
    let pre_clear = position(&plan, &cmd(0x26)).unwrap();
    let first_bitmap = plan.iter().position(|s| *s == Step::WriteBitmap).unwrap();
    let full_update = position(&plan, &cmd_data(0x22, &[0xF4])).unwrap();
    let last_bitmap = plan.iter().rposition(|s| *s == Step::WriteBitmap).unwrap();
    assert!(pre_clear < first_bitmap && first_bitmap < full_update && full_update < last_bitmap);
    assert_eq!(settle(display, &plan), refreshed);
}

#[test]
fn first_refresh_is_full_even_for_a_small_rect() {
    let (display, _) = Display::new();
    let plan = display.draw_image(8, 8, 16, 16);
    assert!(position(&plan, &cmd_data(0x22, &[0xF4])).is_some());
    assert!(position(&plan, &cmd_data(0x22, &[0xFC])).is_none());
    assert!(!settle(display, &plan).initial_refresh);
}

#[test]
fn later_refresh_is_partial_on_aligned_window() {
    let ready = state(true, true, false, false);
    let plan = ready.draw_image(3, 10, 13, 20);
    let expected: Vec<Step> = [
        window(0, 1, 10, 19),
        cmd(0x24),
        vec![Step::WriteBitmap],
        window(0, 1, 10, 19),
        activate(0xFC),
        window(0, 1, 10, 19),
        cmd(0x24),
        vec![Step::WriteBitmap],
    ]
    .concat();
    assert_eq!(plan, expected);
    assert_eq!(settle(ready, &plan), ready);
}

#[test]
fn draw_outside_screen_writes_nothing_after_first_refresh() {
    let ready = state(true, true, false, false);
    assert!(ready.draw_image(250, 0, 300, 100).is_empty());
    assert!(ready.draw_image(-50, -50, -10, -10).is_empty());
    let unwritten = state(true, true, false, true);
    let plan = unwritten.draw_image(250, 0, 300, 100);
    let expected: Vec<Step> =
        [fill(0x26, 0xFF), vec![Step::State(state(true, true, false, false))]].concat();
    assert_eq!(plan, expected);
    assert_eq!(count_bitmap_writes(&plan), 0);
}

#[test]
fn draw_outside_screen_on_fresh_display_only_preclears_and_refreshes() {
    let (display, _) = Display::new();
    let plan = display.draw_image(300, 300, 400, 400);
    assert_eq!(count_bitmap_writes(&plan), 0);
    assert!(position(&plan, &cmd(0x24)).is_none());
    assert!(position(&plan, &fill(0x26, 0xFF)).is_some());
    assert!(position(&plan, &cmd_data(0x22, &[0xF4])).is_some());
}

#[test]
fn write_after_power_off_brings_panel_up_first() {
    let off = state(false, false, true, false);
    let plan = off.write_image(0, 0, 8, 8);
    let up: Vec<Step> = [init_display(), activate(0xF8)].concat();
    assert!(plan.starts_with(&up));
    assert_eq!(settle(off, &plan), state(true, true, true, false));
}

#[test]
fn power_off_then_draw_reruns_init_first() {
    let (display, _) = Display::new();
    let off = display.power_off();
    assert!(off.is_empty());
    let plan = display.draw_image(0, 0, 200, 200);
    assert!(plan.starts_with(&init_display()));
}

#[test]
fn power_off_after_session_clears_power_and_init() {
    let ready = state(true, true, false, false);
    let plan = ready.power_off();
    let off = state(false, false, false, false);
    let expected: Vec<Step> = [activate(0x83), vec![Step::State(off)]].concat();
    assert_eq!(plan, expected);
    let again = off.draw_image(0, 0, 8, 8);
    let up: Vec<Step> = [init_display(), activate(0xF8)].concat();
    assert!(again.starts_with(&up));
    let first_ram_write = position(&again, &cmd(0x24)).unwrap();
    assert!(up.len() <= first_ram_write);
    assert_eq!(settle(off, &again), ready);
}

#[test]
fn write_image_preclears_once_then_writes() {
    let (display, _) = Display::new();
    let plan = display.write_image(0, 0, 8, 1);
    assert_eq!(position(&plan, &cmd(0x26)), Some(init_display().len() + activate(0xF8).len() + 2));
    let after = settle(display, &plan);
    assert!(!after.initial_write);
    assert!(after.initialized && after.power_is_on);
    assert!(after.initial_refresh);
    let second = after.write_image(0, 0, 8, 1);
    let expected: Vec<Step> = [window(0, 0, 0, 0), cmd(0x24), vec![Step::WriteBitmap]].concat();
    assert_eq!(second, expected);
}

#[test]
fn clear_screen_writes_refreshes_and_writes_again() {
    let ready = state(true, true, false, false);
    let plan = ready.clear_screen(0x00);
    let expected: Vec<Step> = [
        fill(0x24, 0x00),
        window(0, 24, 0, 199),
        activate(0xFC),
        fill(0x24, 0x00),
    ]
    .concat();
    assert_eq!(plan, expected);
}

#[test]
fn clear_screen_on_fresh_display_preclears_and_refreshes_fully() {
    let (display, _) = Display::new();
    let plan = display.clear_screen(0xAA);
    assert!(plan.starts_with(&init_display()));
    assert!(position(&plan, &fill(0x26, 0xFF)).is_some());
    assert!(position(&plan, &fill(0x26, 0xAA)).is_none());
    assert_eq!(plan.iter().filter(|s| **s == Step::Fill { value: 0xAA, count: FRAME_BYTES }).count(), 2);
    assert!(position(&plan, &cmd_data(0x22, &[0xF4])).is_some());
    assert_eq!(settle(display, &plan), state(true, true, false, false));
}

#[test]
fn y_range_repeats_the_low_end_byte() {
    let ready = state(true, true, false, false);
    let plan = ready.write_image(0, 0, 8, 200);
    let y_range = cmd_data(0x45, &[0, 0, 199, 199]);
    assert!(position(&plan, &y_range).is_some());
}

#[test]
fn zero_height_rect_on_top_edge_still_gets_a_window() {
    let ready = state(true, true, false, false);
    let plan = ready.write_image(0, -5, 8, 0);
    assert!(position(&plan, &cmd_data(0x45, &[0, 0, 255, 255])).is_some());
    assert_eq!(count_bitmap_writes(&plan), 1);
}

#[test]
fn off_screen_write_after_power_off_sends_nothing() {
    let off = state(false, false, false, false);
    assert!(off.write_image(-10, 0, -5, 10).is_empty());
    assert!(off.draw_image(-10, 0, -5, 10).is_empty());
    assert!(off.draw_image(0, 250, 200, 300).is_empty());
    let off_unrefreshed = state(false, false, true, false);
    assert!(off_unrefreshed.write_image(-10, 0, -5, 10).is_empty());
    let plan = off_unrefreshed.draw_image(-10, 0, -5, 10);
    let expected: Vec<Step> =
        [vec![Step::State(state(false, false, false, false))], activate(0xF4)].concat();
    assert_eq!(plan, expected);
}
