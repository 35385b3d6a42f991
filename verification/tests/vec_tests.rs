use tiny_soft_renderer::math::{vec3, TVec2, TVec3, TVec4, Vec2i, Vec2u, Vec3i, Vec4u};

#[test]
fn test_vec2_operations() {
    let vec_a = TVec2 { x: 1, y: 2 };
    let vec_b = TVec2 { x: 3, y: 4 };

    let vec_add = vec_a + vec_b;
    assert_eq!(vec_add, TVec2 { x: 4, y: 6 });

    let vec_sub = vec_a - vec_b;
    assert_eq!(vec_sub, TVec2 { x: -2, y: -2 });

    let vec_mul = vec_a * vec_b;
    assert_eq!(vec_mul, TVec2 { x: 3, y: 8 });

    let vec_div = vec_b / TVec2 { x: 1, y: 2 };
    assert_eq!(vec_div, TVec2 { x: 3, y: 2 });
}

#[test]
fn test_vec3_chain_operations() {
    let mut vec = TVec3 { x: 1, y: 2, z: 3 };

    vec = vec + TVec3 { x: 1, y: 1, z: 1 };
    vec = vec * 2;

    assert_eq!(vec, TVec3 { x: 4, y: 6, z: 8 });
}

#[test]
fn test_vec4_assign_operations() {
    let mut vec = TVec4 { x: 1, y: 2, z: 3, w: 4 };

    vec = vec - TVec4 { x: 1, y: 1, z: 1, w: 1 };
    assert_eq!(vec, TVec4 { x: 0, y: 1, z: 2, w: 3 });

    vec = vec / TVec4 { x: 1, y: 1, z: 2, w: 3 };
    assert_eq!(vec, TVec4 { x: 0, y: 1, z: 1, w: 1 });
}

#[test]
fn test_vec2_scalar_mul() {
    let vec = TVec2 { x: 1, y: 2 };
    let scalar = 2;

    let result = vec * scalar;
    assert_eq!(result, TVec2 { x: 2, y: 4 });

    let result = vec * 2;
    assert_eq!(result, TVec2 { x: 2, y: 4 });
}

#[test]
fn test_vec_add() {
    let vec1 = TVec2 { x: 1, y: 2 };
    let vec2 = TVec2 { x: 2, y: 3 };

    let result = vec1 + vec2;
    assert_eq!(result, TVec2 { x: 3, y: 5 });
}

#[test]
fn test_vec_sqrt() {
    let vec = TVec2 { x: 3, y: 4 };
    assert_eq!((vec.norm_sq() as f32).sqrt(), 5.0);
}

#[test]
fn test_vec_normalize() {
    let vec = TVec2 { x: 3, y: 4 };
    let length = (vec.norm_sq() as f32).sqrt();
    let normalized = TVec2 { x: vec.x() as f32 / length, y: vec.y() as f32 / length };
    assert_eq!(normalized, TVec2 { x: 0.6, y: 0.8 });
}

#[test]
fn test_vec_index_and_get() {
    let vec = TVec2 { x: 1, y: 2 };
    assert_eq!(*vec.get(0), 1);
    assert_eq!(*vec.get(1), 2);

    let mut vec = TVec2 { x: 1, y: 2 };
    vec.set(0, 3);
    vec.set(1, 4);
    assert_eq!(vec, TVec2 { x: 3, y: 4 });

    assert_eq!(vec.get(0), &3);
    assert_eq!(vec.get(1), &4);
}

#[test]
fn test_vec_common_methods() {
    let vec = Vec2u::new(1, 2);
    assert_eq!(vec, Vec2u { x: 1, y: 2 });

    let vec = vec3(1, 2, 3);
    assert_eq!(vec, Vec3i { x: 1, y: 2, z: 3 });

    let vec = Vec4u::splat(1);
    assert_eq!(vec, Vec4u { x: 1, y: 1, z: 1, w: 1 });

    let vec1 = Vec4u::new(1, 2, 3, 4);
    let vec2 = Vec4u::new(5, 6, 7, 8);
    assert_eq!(vec1.dot(&vec2), 70);

    let vec1 = Vec2i { x: 1, y: 2 };
    let vec2 = Vec2i { x: 3, y: 4 };
    assert_eq!(vec1.dot(&vec2), 11);

    assert_eq!(Vec2i::zero(), Vec2i { x: 0, y: 0 });
    assert_eq!(Vec2i::one(), Vec2i { x: 1, y: 1 });

    assert_eq!(Vec2i::zero().x(), 0);
    assert_eq!(Vec2i::one().y(), 1);
    assert_eq!(Vec3i::zero().z(), 0);
    assert_eq!(Vec4u::one().w(), 1);
}

#[test]
fn test_vec_from_array() {
    let vec = TVec2::from([1, 2]);
    assert_eq!(vec, TVec2 { x: 1, y: 2 });

    let vec = TVec3::from([1, 2, 3]);
    assert_eq!(vec, TVec3 { x: 1, y: 2, z: 3 });

    let vec = TVec4::from([1, 2, 3, 4]);
    assert_eq!(vec, TVec4 { x: 1, y: 2, z: 3, w: 4 });
}

#[test]
fn test_vec_neg() {
    let vec = TVec2 { x: 1, y: 2 };
    assert_eq!(-vec, TVec2 { x: -1, y: -2 });

    let vec = TVec3 { x: 1, y: 2, z: 3 };
    assert_eq!(-vec, TVec3 { x: -1, y: -2, z: -3 });

    let vec = TVec4 { x: 1, y: 2, z: 3, w: 4 };
    assert_eq!(-vec, TVec4 { x: -1, y: -2, z: -3, w: -4 });
}

#[test]
fn test_vec_cross() {
    let a = vec3(1, 2, 3);
    let b = vec3(4, 5, 6);
    let c = a.cross(&b);
    assert_eq!(c, Vec3i { x: -3, y: 6, z: -3 });
}
