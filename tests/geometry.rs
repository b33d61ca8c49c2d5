use rust_basics::geometry::{Point, Rectangle};
use rust_basics::traffic::TrafficLight;

#[test]
fn test_rectangle_new() {
    let rect = Rectangle::new(10, 20);
    assert_eq!(rect.width, 10);
    assert_eq!(rect.height, 20);
}

#[test]
fn test_area() {
    let rect = Rectangle::new(10, 20);
    assert_eq!(rect.area(), 200);
}

#[test]
fn test_perimeter() {
    let rect = Rectangle::new(10, 20);
    assert_eq!(rect.perimeter(), 60);
}

#[test]
fn test_is_square() {
    let rect = Rectangle::new(10, 20);
    let square = Rectangle::new(10, 10);
    assert_eq!(rect.is_square(), false);
    assert_eq!(square.is_square(), true);
}

#[test]
fn test_can_hold() {
    let rect1 = Rectangle::new(10, 20);
    let rect2 = Rectangle::new(5, 10);
    let rect3 = Rectangle::new(15, 25);

    assert_eq!(rect1.can_hold(&rect2), true);
    assert_eq!(rect1.can_hold(&rect3), false);
}

#[test]
fn can_hold_an_equal_rectangle() {
    let rect = Rectangle::new(10, 20);
    assert_eq!(rect.can_hold(&Rectangle::new(10, 20)), true);
    assert_eq!(rect.can_hold(&Rectangle::new(20, 10)), false);
}

#[test]
fn test_scale() {
    let mut rect = Rectangle::new(10, 20);
    rect.scale(2);
    assert_eq!(rect.width, 20);
    assert_eq!(rect.height, 40);
}

#[test]
fn scale_by_zero() {
    let mut rect = Rectangle::new(10, 20);
    rect.scale(0);
    assert_eq!(rect.area(), 0);
}

#[test]
fn point_new_keeps_coordinates() {
    let p = Point::new(3, -4);
    assert_eq!(p.0, 3);
    assert_eq!(p.1, -4);
}

#[test]
fn test_traffic_light_duration() {
    assert_eq!(TrafficLight::Red.duration(), 60);
    assert_eq!(TrafficLight::Yellow.duration(), 10);
    assert_eq!(TrafficLight::Green.duration(), 50);
}
