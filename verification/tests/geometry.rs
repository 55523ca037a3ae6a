use tuit::geometry::Rectangle;

#[test]
fn new_normalises_any_corner_order() {
    let a = Rectangle::new((1, 2), (7, 9));
    let b = Rectangle::new((7, 9), (1, 2));
    let c = Rectangle::new((7, 2), (1, 9));
    let d = Rectangle::new((1, 9), (7, 2));
    for r in [a, b, c, d] {
        assert_eq!(r.left_top(), (1, 2));
        assert_eq!(r.right_bottom(), (7, 9));
        assert!(r.left() <= r.right());
        assert!(r.top() <= r.bottom());
    }
}

#[test]
fn of_size_area_is_product() {
    assert_eq!(Rectangle::of_size(20, 20).area(), 400);
    assert_eq!(Rectangle::of_size(57, 14).area(), 57 * 14);
    assert_eq!(Rectangle::of_size(0, 9).area(), 0);
    assert_eq!(Rectangle::of_size(9, 0).area(), 0);
    assert_eq!(Rectangle::of_size(0, 0).area(), 0);
}

#[test]
fn accessors_and_dimensions() {
    let r = Rectangle::new((2, 3), (10, 8));
    assert_eq!(r.left(), 2);
    assert_eq!(r.top(), 3);
    assert_eq!(r.right(), 10);
    assert_eq!(r.bottom(), 8);
    assert_eq!(r.left_bottom(), (2, 8));
    assert_eq!(r.right_top(), (10, 3));
    assert_eq!(r.width(), 8);
    assert_eq!(r.height(), 5);
    assert_eq!(r.dimensions(), (8, 5));
    assert_eq!(r.area(), 40);
}

#[test]
fn contains_is_inclusive_on_all_edges() {
    let r = Rectangle::of_size(20, 20);
    assert!(r.contains((0, 0)));
    assert!(r.contains((5, 5)));
    assert!(r.contains((20, 20)));
    assert!(!r.contains((21, 5)));
    assert!(!r.contains((5, 21)));
}

#[test]
fn zero_width_rectangle_still_contains_its_edge_line() {
    let r = Rectangle::new((4, 0), (4, 9));
    assert_eq!(r.width(), 0);
    assert!(r.contains((4, 3)));
    assert!(!r.contains((5, 3)));
}

#[test]
fn contains_rect_uses_inclusive_bounds() {
    let r = Rectangle::of_size(20, 20);
    assert!(r.contains_rect(Rectangle::new((1, 2), (20, 20))));
    assert!(!r.contains_rect(Rectangle::new((1, 2), (21, 21))));
}

#[test]
fn edge_movers_plain_moves() {
    let r = Rectangle::new((2, 3), (10, 8));
    assert_eq!(r.right_to(12).right_bottom(), (12, 8));
    assert_eq!(r.left_to(0).left_top(), (0, 3));
    assert_eq!(r.bottom_to(11).right_bottom(), (10, 11));
    assert_eq!(r.top_to(1).left_top(), (2, 1));
}

#[test]
fn edge_movers_swap_on_crossover() {
    let r = Rectangle::new((2, 3), (10, 8));
    // moving the right edge left of the left edge swaps the pair
    let s = r.right_to(1);
    assert_eq!(s.left(), 1);
    assert_eq!(s.right(), 2);
    // moving the left edge right of the right edge swaps the pair
    let s = r.left_to(12);
    assert_eq!(s.left(), 10);
    assert_eq!(s.right(), 12);
    // moving the bottom edge above the top edge swaps the pair
    let s = r.bottom_to(1);
    assert_eq!(s.top(), 1);
    assert_eq!(s.bottom(), 3);
    // moving the top edge below the bottom edge swaps the pair
    let s = r.top_to(9);
    assert_eq!(s.top(), 8);
    assert_eq!(s.bottom(), 9);
}

#[test]
fn to_keeps_dimensions() {
    let r = Rectangle::new((2, 3), (10, 8));
    let moved = r.to((100, 200));
    assert_eq!(moved.left_top(), (100, 200));
    assert_eq!(moved.dimensions(), (8, 5));
}

#[test]
fn rectangles_order_by_area_not_position() {
    let small = Rectangle::of_size(2, 3);
    let large = Rectangle::new((50, 50), (53, 53));
    assert!(small < large);
    assert!(large > small);
    // two rectangles of equal area compare equal even at different positions
    let a = Rectangle::of_size(2, 3);
    let b = Rectangle::new((10, 10), (13, 12));
    assert_eq!(a.partial_cmp(&b), Some(std::cmp::Ordering::Equal));
    assert_ne!(a, b);
}
