use epd_display::geometry::{ceil_multiple, floor_multiple, Rect, Span};

fn span(lo: i16, hi: i16) -> Span {
    Span { lo, hi }
}

fn rect(x_lo: i16, y_lo: i16, x_hi: i16, y_hi: i16) -> Rect {
    Rect { x: span(x_lo, x_hi), y: span(y_lo, y_hi) }
}

#[test]
fn span_intersection_commutes_and_takes_inner_bounds() {
    let a = span(-5, 40);
    let b = span(10, 300);
    assert_eq!(a.intersection(b), b.intersection(a));
    assert_eq!(a.intersection(b), Some(span(10, 40)));
    let c = span(50, 60);
    assert_eq!(a.intersection(c), None);
    assert_eq!(c.intersection(a), None);
}

#[test]
fn span_intersection_of_touching_spans_is_empty_but_present() {
    assert_eq!(span(0, 10).intersection(span(10, 20)), Some(span(10, 10)));
}

#[test]
fn span_size_is_length() {
    assert_eq!(span(3, 11).size(), 8);
    assert_eq!(span(11, 3).size(), -8);
}

#[test]
fn rect_intersection_with_screen() {
    let screen = Rect::screen();
    assert_eq!(rect(-10, 20, 50, 400).intersection(screen), Some(rect(0, 20, 50, 200)));
    assert_eq!(rect(250, 0, 300, 100).intersection(screen), None);
    assert_eq!(rect(0, -50, 100, -1).intersection(screen), None);
    assert_eq!(rect(10, 10, 20, 20).intersection(screen), Some(rect(10, 10, 20, 20)));
}

#[test]
fn rect_intersection_is_empty_when_one_axis_is() {
    assert_eq!(rect(0, 0, 10, 10).intersection(rect(5, 20, 15, 30)), None);
    assert_eq!(rect(0, 0, 10, 10).intersection(rect(20, 5, 30, 15)), None);
}

#[test]
fn alignment_brackets_the_value() {
    for n in -400i16..=400 {
        let lo = floor_multiple(n, 8);
        let hi = ceil_multiple(n, 8);
        assert!(lo <= n && n <= hi);
        assert_eq!(lo % 8, 0);
        assert_eq!(hi % 8, 0);
    }
    assert_eq!(floor_multiple(13, 8), 8);
    assert_eq!(ceil_multiple(13, 8), 16);
    assert_eq!(floor_multiple(16, 8), 16);
    assert_eq!(ceil_multiple(16, 8), 16);
    assert_eq!(ceil_multiple(199, 8), 200);
    assert_eq!(ceil_multiple(32760, 8), 32760);
}

#[test]
fn alignment_of_negative_values_rounds_down_and_up() {
    assert_eq!(floor_multiple(-3, 8), -8);
    assert_eq!(ceil_multiple(-3, 8), 0);
    assert_eq!(floor_multiple(-16, 8), -16);
    assert_eq!(ceil_multiple(-16, 8), -16);
    assert_eq!(floor_multiple(-32768, 8), -32768);
    assert_eq!(floor_multiple(-32767, 8), -32768);
}
