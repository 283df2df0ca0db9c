use micromath::vector::{Vector2d, Vector3d};

#[test]
fn vector3d_from_tuple() {
    let vec: Vector3d<i32> = Vector3d::from_tuple((1, 2, 3));
    assert_eq!(vec.x, 1);
    assert_eq!(vec.y, 2);
    assert_eq!(vec.z, 3);

    let (x, y, z) = vec.to_tuple();
    assert_eq!(x, 1);
    assert_eq!(y, 2);
    assert_eq!(z, 3);
}

#[test]
fn vector3d_from_array() {
    let vec: Vector3d<i32> = Vector3d::from_array([1, 2, 3]);
    assert_eq!(vec.x, 1);
    assert_eq!(vec.y, 2);
    assert_eq!(vec.z, 3);

    let arr = vec.to_array();
    assert_eq!(arr[0], 1);
    assert_eq!(arr[1], 2);
    assert_eq!(arr[2], 3);
}

#[test]
fn vector3d_cross() {
    let lhs: Vector3d<i32> = Vector3d { x: 1, y: 2, z: 3 };
    let rhs: Vector3d<i32> = Vector3d { x: 4, y: 5, z: 6 };
    let cross = lhs.cross(rhs);
    assert_eq!(cross.x, -3);
    assert_eq!(cross.y, 6);
    assert_eq!(cross.z, -3);
}

#[test]
fn vector3d_dot() {
    let lhs: Vector3d<i32> = Vector3d { x: 1, y: 2, z: 3 };
    let rhs: Vector3d<i32> = Vector3d { x: 4, y: 5, z: 6 };
    let dot = lhs.dot(rhs);
    assert_eq!(dot, 32);
}

#[test]
fn vector3d_div() {
    let vec: Vector3d<i32> = Vector3d { x: 10, y: 20, z: 30 };
    let result = vec.div(2);
    assert_eq!(result.x, 5);
    assert_eq!(result.y, 10);
    assert_eq!(result.z, 15);
}

#[test]
fn vector3d_div_assign() {
    let mut vec: Vector3d<i32> = Vector3d { x: 10, y: 20, z: 30 };
    vec.div_assign(2);
    assert_eq!(vec.x, 5);
    assert_eq!(vec.y, 10);
    assert_eq!(vec.z, 15);
}

#[test]
fn vector3d_cross_antisymmetric() {
    let lhs: Vector3d<i32> = Vector3d { x: 1, y: 2, z: 3 };
    let rhs: Vector3d<i32> = Vector3d { x: 4, y: 5, z: 6 };
    let ab = lhs.cross(rhs);
    let ba = rhs.cross(lhs);
    assert_eq!(ab.x, -ba.x);
    assert_eq!(ab.y, -ba.y);
    assert_eq!(ab.z, -ba.z);
}

#[test]
fn vector3d_embeds_vector2d() {
    let flat: Vector2d<i32> = Vector2d { x: 7, y: -2 };
    let vec = Vector3d::from_2d(flat);
    assert_eq!(vec.x, 7);
    assert_eq!(vec.y, -2);
    assert_eq!(vec.z, 0);
    assert_eq!(vec.get(2), Some(0));
    assert_eq!(vec.get(3), None);
}
