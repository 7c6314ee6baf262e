use mmd::geometry::SimpleRect;

fn rect(left: i32, top: i32, right: i32, bottom: i32) -> SimpleRect {
    SimpleRect { left, top, right, bottom }
}

#[test]
fn rectangle_intersection_uses_physical_overlap() {
    let display = SimpleRect {
        left: 0,
        top: 0,
        right: 1920,
        bottom: 1080,
    };
    let window = SimpleRect {
        left: 1900,
        top: 100,
        right: 2100,
        bottom: 300,
    };

    let intersection = display.intersect(window);
    assert_eq!(intersection.width(), 20);
    assert_eq!(intersection.height(), 200);
}

#[test]
fn rectangles_that_do_not_meet_overlap_in_nothing() {
    let left = rect(0, 0, 10, 10);
    assert!(left.intersect(rect(10, 0, 20, 10)).is_empty());
    assert!(left.intersect(rect(0, 12, 10, 20)).is_empty());
    assert!(!left.intersect(rect(9, 9, 20, 20)).is_empty());
    assert_eq!(left.intersect(rect(9, 9, 20, 20)), rect(9, 9, 10, 10));
}

#[test]
fn overlap_does_not_depend_on_the_order() {
    let a = rect(-5, -5, 40, 30);
    let b = rect(10, -20, 90, 20);
    let c = rect(0, 0, 20, 100);
    assert_eq!(a.intersect(b), b.intersect(a));
    assert_eq!(a.intersect(a), a);
    assert_eq!(a.intersect(b).intersect(c), a.intersect(b.intersect(c)));
    assert_eq!(a.intersect(b), rect(10, -5, 40, 20));
}

#[test]
fn spans_beyond_the_coordinate_range_are_told() {
    let all = rect(i32::MIN, i32::MIN, i32::MAX, i32::MAX);
    assert_eq!(all.wide_width(), 4_294_967_295);
    assert_eq!(all.wide_height(), 4_294_967_295);
    assert!(!all.is_empty());
    assert!(rect(i32::MAX, 0, i32::MIN, 10).is_empty());
}

#[test]
fn overlap_holds_the_pixels_that_both_hold() {
    let covers = |rect: SimpleRect, x: i32, y: i32| {
        rect.left <= x && x < rect.right && rect.top <= y && y < rect.bottom
    };
    let a = rect(0, 1, 5, 6);
    for b in vec![rect(3, 0, 8, 4), rect(5, 1, 9, 6), rect(2, 2, 3, 3), rect(4, 4, 1, 9)] {
        let mut any = false;
        for x in -1..10 {
            for y in -1..10 {
                let both = covers(a, x, y) && covers(b, x, y);
                any = any || both;
                assert_eq!(covers(a.intersect(b), x, y), both);
            }
        }
        assert_eq!(a.intersect(b).is_empty(), !any);
    }
}
