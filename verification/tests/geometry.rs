use breaker::geometry::{saturate, saturate32, signum, vec2, Rect, Vec2, TICKS_PER_SECOND, UNIT};

#[test]
fn a_unit_is_thirty_two_sub_units_per_tick_of_a_second() {
    assert_eq!(UNIT, 32 * TICKS_PER_SECOND);
    assert_eq!(TICKS_PER_SECOND, 1_000_000);
}

#[test]
fn saturate_clamps_to_the_range_of_coordinates() {
    assert_eq!(saturate(5), 5);
    assert_eq!(saturate(-5), -5);
    assert_eq!(saturate(i64::MAX as i128), i64::MAX);
    assert_eq!(saturate(i64::MAX as i128 + 1), i64::MAX);
    assert_eq!(saturate(i64::MIN as i128 - 1), i64::MIN);
    assert_eq!(saturate(i128::MAX), i64::MAX);
    assert_eq!(saturate(i128::MIN), i64::MIN);
}

#[test]
fn saturate32_clamps_to_the_range_of_counters() {
    assert_eq!(saturate32(7), 7);
    assert_eq!(saturate32(i32::MAX as i64 + 1), i32::MAX);
    assert_eq!(saturate32(i32::MIN as i64 - 1), i32::MIN);
}

#[test]
fn signum_of_zero_is_zero() {
    assert_eq!(signum(0), 0);
    assert_eq!(signum(17), 1);
    assert_eq!(signum(-17), -1);
    assert_eq!(signum(i128::MIN), -1);
}

#[test]
fn vectors_are_built_from_coordinates() {
    assert_eq!(vec2(3, -4), Vec2 { x: 3, y: -4 });
    assert_eq!(Vec2::new(3, -4), Vec2 { x: 3, y: -4 });
}

#[test]
fn shift_adds_and_saturates() {
    assert_eq!(Vec2 { x: 1, y: 2 }.shift(10, -20), Vec2 { x: 11, y: -18 });
    assert_eq!(Vec2 { x: i64::MAX, y: i64::MIN }.shift(1, -1), Vec2 { x: i64::MAX, y: i64::MIN });
}

#[test]
fn overlapping_rectangles_intersect_in_their_common_part() {
    let a = Rect::new(0, 0, 10, 10);
    let b = Rect::new(5, 7, 10, 10);
    assert_eq!(a.intersect(b), Some(Rect { x: 5, y: 7, w: 5, h: 3 }));
    assert_eq!(b.intersect(a), Some(Rect { x: 5, y: 7, w: 5, h: 3 }));
}

#[test]
fn a_rectangle_inside_another_is_their_intersection() {
    let a = Rect::new(0, 0, 100, 100);
    let b = Rect::new(20, 30, 5, 6);
    assert_eq!(a.intersect(b), Some(b));
}

#[test]
fn touching_rectangles_do_not_intersect() {
    let a = Rect::new(0, 0, 10, 10);
    assert_eq!(a.intersect(Rect::new(10, 2, 10, 10)), None);
    assert_eq!(a.intersect(Rect::new(2, 10, 10, 10)), None);
    assert_eq!(a.intersect(Rect::new(-10, 2, 10, 10)), None);
    assert_eq!(a.intersect(Rect::new(2, -10, 10, 10)), None);
    assert_eq!(a.intersect(Rect::new(10, 10, 4, 4)), None);
    assert_eq!(a.intersect(Rect::new(9, 9, 4, 4)), Some(Rect { x: 9, y: 9, w: 1, h: 1 }));
}

#[test]
fn a_rectangle_without_width_or_height_meets_nothing() {
    let a = Rect::new(0, 0, 10, 10);
    assert_eq!(a.intersect(Rect::new(5, 5, 0, 3)), None);
    assert_eq!(a.intersect(Rect::new(5, 5, 3, 0)), None);
    assert_eq!(Rect::new(5, 5, 0, 0).intersect(a), None);
}

#[test]
fn separate_rectangles_do_not_intersect() {
    let a = Rect::new(0, 0, 10, 10);
    assert_eq!(a.intersect(Rect::new(11, 0, 10, 10)), None);
    assert_eq!(a.intersect(Rect::new(0, -20, 10, 9)), None);
}

#[test]
fn a_rectangle_of_negative_size_meets_nothing() {
    let a = Rect::new(0, 0, -1, 10);
    assert_eq!(a.intersect(Rect::new(-5, -5, 20, 20)), None);
}

#[test]
fn intersection_does_not_overflow_at_the_limits() {
    let a = Rect::new(i64::MAX, i64::MAX, i64::MAX, i64::MAX);
    let b = Rect::new(i64::MIN, i64::MIN, i64::MAX, i64::MAX);
    assert_eq!(a.intersect(b), None);
    assert_eq!(a.intersect(a), Some(a));
}

#[test]
fn place_moves_the_corner_and_keeps_the_size() {
    let local = Rect::new(2, 3, 30, 40);
    assert_eq!(local.place(Vec2 { x: 100, y: 200 }), Rect { x: 102, y: 203, w: 30, h: 40 });
    assert_eq!(
        local.place(Vec2 { x: i64::MAX, y: i64::MIN }),
        Rect { x: i64::MAX, y: i64::MIN + 3, w: 30, h: 40 }
    );
}
