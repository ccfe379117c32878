use particle_sim::element::{average_color, Element};
use particle_sim::point::Point;

#[test]
fn point_add_subtract() {
    let a = Point { x: 1, y: -2, z: 3 };
    let b = Point { x: 10, y: 20, z: -30 };
    let s = a.add(&b);
    assert_eq!((s.x, s.y, s.z), (11, 18, -27));
    let d = a.subtract(&b);
    assert_eq!((d.x, d.y, d.z), (-9, -22, 33));
}

#[test]
fn point_mult_inverse() {
    let a = Point { x: 2, y: -3, z: 0 };
    let m = a.mult(4);
    assert_eq!((m.x, m.y, m.z), (8, -12, 0));
    let i = a.inverse();
    assert_eq!((i.x, i.y, i.z), (-2, 3, 0));
}

#[test]
fn point_default_is_origin() {
    let p = Point::default();
    assert_eq!((p.x, p.y, p.z), (0, 0, 0));
}

#[test]
fn element_constructors() {
    let h = Element::hydrogen();
    assert_eq!(h.name.as_str(), "hydrogen");
    assert_eq!(h.stickiness, 600);
    assert_eq!(h.color, [255, 0, 0]);

    let o = Element::oxygen();
    assert_eq!(o.name.as_str(), "oxygen");
    assert_eq!(o.stickiness, 200);
    assert_eq!(o.color, [0, 255, 0]);

    let c = Element::carbon();
    assert_eq!(c.name.as_str(), "carbon");
    assert_eq!(c.stickiness, 340);
    assert_eq!(c.color, [0, 0, 255]);
}

#[test]
fn element_combine_averages_and_concatenates() {
    let h = Element::hydrogen();
    let o = Element::oxygen();
    let ho = h.combine(&o);
    assert_eq!(ho.name.as_str(), "hydrogen-oxygen");
    assert_eq!(ho.stickiness, 400);
    assert_eq!(ho.color, [127, 127, 0]);
}

#[test]
fn average_color_exact() {
    assert_eq!(average_color([255, 0, 0], [0, 255, 0]), [127, 127, 0]);
    assert_eq!(average_color([255, 255, 255], [255, 255, 255]), [255, 255, 255]);
    assert_eq!(average_color([0, 0, 0], [0, 0, 0]), [0, 0, 0]);
    assert_eq!(average_color([10, 20, 30], [11, 21, 31]), [10, 20, 30]);
}
