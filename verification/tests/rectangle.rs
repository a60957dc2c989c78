use exercises::rectangle::{area, Rectangle};

#[test]
fn thirty_by_fifty_is_fifteen_hundred() {
    let rect = Rectangle { width: 30, height: 50 };
    assert_eq!(area(&rect), 1500);
}

#[test]
fn degenerate_rectangles_have_no_area() {
    assert_eq!(area(&Rectangle { width: 0, height: 50 }), 0);
    assert_eq!(area(&Rectangle { width: 30, height: 0 }), 0);
}
