//! Algebraic vector types generic over a component type.

pub mod component;
pub mod vector2d;
pub mod vector3d;

pub use component::Component;
pub use vector2d::Vector2d;
pub use vector3d::Vector3d;
