use micromath::vector::Vector2d;

#[test]
fn vector2d_from_tuple() {
    let vec: Vector2d<i32> = Vector2d::from_tuple((1, 2));
    assert_eq!(vec.x, 1);
    assert_eq!(vec.y, 2);

    let (x, y) = vec.to_tuple();
    assert_eq!(x, 1);
    assert_eq!(y, 2);
}

#[test]
fn vector2d_from_array() {
    let vec: Vector2d<i32> = Vector2d::from_array([1, 2]);
    assert_eq!(vec.x, 1);
    assert_eq!(vec.y, 2);

    let arr = vec.to_array();
    assert_eq!(arr[0], 1);
    assert_eq!(arr[1], 2);
}

#[test]
fn vector2d_cross() {
    let lhs: Vector2d<i32> = Vector2d { x: 1, y: 2 };
    let rhs: Vector2d<i32> = Vector2d { x: 3, y: 4 };
    let cross = lhs.cross(rhs);
    assert_eq!(cross.x, 0);
    assert_eq!(cross.y, 0);
    assert_eq!(cross.z, -2);

    let perp_dot = lhs.perpendicular_dot(rhs);
    assert_eq!(perp_dot, cross.z);
}

#[test]
fn vector2d_dot() {
    let lhs: Vector2d<i32> = Vector2d { x: 1, y: 2 };
    let rhs: Vector2d<i32> = Vector2d { x: 3, y: 4 };
    let dot = lhs.dot(rhs);
    assert_eq!(dot, 11);
}

#[test]
fn vector2d_div() {
    let vec: Vector2d<i32> = Vector2d { x: 10, y: 20 };
    let result = vec.div(2);
    assert_eq!(result.x, 5);
    assert_eq!(result.y, 10);
}

#[test]
fn vector2d_div_assign() {
    let mut vec: Vector2d<i32> = Vector2d { x: 10, y: 20 };
    vec.div_assign(2);
    assert_eq!(vec.x, 5);
    assert_eq!(vec.y, 10);
}

#[test]
fn vector2d_unsigned_and_narrow_components() {
    let lhs: Vector2d<u8> = Vector2d { x: 3, y: 4 };
    let rhs: Vector2d<u8> = Vector2d { x: 5, y: 6 };
    assert_eq!(lhs.dot(rhs), 39);
    assert_eq!(lhs.plus(rhs).to_array(), [8, 10]);
    assert_eq!(rhs.minus(lhs).to_array(), [2, 2]);

    let neg: Vector2d<i8> = Vector2d { x: -7, y: 5 };
    assert_eq!(neg.div(-2).to_array(), [3, -2]);
    assert_eq!(neg.scale(3).to_array(), [-21, 15]);
}
