use wshowkeys_rs::geometry::Rectangle;
use wshowkeys_rs::render::RenderQuality;

#[test]
fn test_rectangle_operations() {
    let rect1 = Rectangle { x: 0, y: 0, width: 100, height: 100 };
    let rect2 = Rectangle { x: 50, y: 50, width: 100, height: 100 };
    let rect3 = Rectangle { x: 200, y: 200, width: 100, height: 100 };

    assert!(rect1.intersects(&rect2));
    assert!(!rect1.intersects(&rect3));
    assert_eq!(rect1.intersection_area(&rect2), 50 * 50);
    assert_eq!(rect1.intersection_area(&rect3), 0);
}

#[test]
fn touching_rectangles_do_not_intersect() {
    let a = Rectangle { x: 0, y: 0, width: 10, height: 10 };
    let b = Rectangle { x: 10, y: 0, width: 10, height: 10 };
    assert!(!a.intersects(&b));
    let c = Rectangle { x: -5, y: 2, width: 10, height: 3 };
    assert_eq!(a.intersection_area(&c), 5 * 3);
}

#[test]
fn render_quality_levels() {
    assert_eq!(RenderQuality::Low.msaa_samples(), 1);
    assert_eq!(RenderQuality::Medium.msaa_samples(), 2);
    assert_eq!(RenderQuality::High.msaa_samples(), 4);
    assert_eq!(RenderQuality::Ultra.msaa_samples(), 8);
    assert_eq!(RenderQuality::Low.anisotropy(), 1);
    assert_eq!(RenderQuality::Ultra.anisotropy(), 16);
    assert_eq!(RenderQuality::default(), RenderQuality::High);
}
