use voxel_engine::frustum::{Aabb, FrustumCuller, Intersection};
use voxel_engine::math::{Mat4, Vec3, FP_ONE};

fn unit_box_at(center_x: i64, half: i64) -> Aabb {
    Aabb::from_params(
        Vec3::new(center_x - half, -half, -half),
        Vec3::new(center_x + half, half, half),
    )
}

#[test]
fn identity_frustum_classifies_inside() {
    // Clip space of the identity matrix is |x|,|y|,|z| <= w = 1.
    let culler = FrustumCuller::from_matrix(&Mat4::identity());
    let small = unit_box_at(0, FP_ONE / 2);
    assert_eq!(culler.test_bounding_box(&small), Intersection::Inside);
}

#[test]
fn identity_frustum_classifies_outside() {
    let culler = FrustumCuller::from_matrix(&Mat4::identity());
    let far_away = unit_box_at(10 * FP_ONE, FP_ONE / 2);
    assert_eq!(culler.test_bounding_box(&far_away), Intersection::Outside);
}

#[test]
fn identity_frustum_classifies_partial() {
    let culler = FrustumCuller::from_matrix(&Mat4::identity());
    let straddling = unit_box_at(FP_ONE, FP_ONE / 2);
    assert_eq!(culler.test_bounding_box(&straddling), Intersection::Partial);
}

#[test]
fn boundary_box_is_inside() {
    // A box whose faces lie exactly on the clip planes still passes the
    // non-strict plane tests.
    let culler = FrustumCuller::from_matrix(&Mat4::identity());
    let exact = unit_box_at(0, FP_ONE);
    assert_eq!(culler.test_bounding_box(&exact), Intersection::Inside);
}

#[test]
fn shrinking_an_inside_box_never_leaves() {
    let culler = FrustumCuller::from_matrix(&Mat4::identity());
    let outer = unit_box_at(0, FP_ONE / 2);
    assert_eq!(culler.test_bounding_box(&outer), Intersection::Inside);
    for half in [FP_ONE / 4, FP_ONE / 8, 1, 0] {
        let inner = unit_box_at(0, half);
        assert_ne!(culler.test_bounding_box(&inner), Intersection::Outside);
    }
}

#[test]
fn identity_plane_extraction_values() {
    let culler = FrustumCuller::from_matrix(&Mat4::identity());
    // Each plane of the identity frustum has a unit axis normal and unit
    // offset, e.g. x + 1 >= 0 bounds the negative-x side.
    assert_eq!(
        (culler.nx.x, culler.nx.y, culler.nx.z, culler.nx.w),
        (FP_ONE, 0, 0, FP_ONE)
    );
    assert_eq!(
        (culler.px.x, culler.px.y, culler.px.z, culler.px.w),
        (-FP_ONE, 0, 0, FP_ONE)
    );
    assert_eq!(
        (culler.ny.y, culler.py.y, culler.nz.z, culler.pz.z),
        (FP_ONE, -FP_ONE, FP_ONE, -FP_ONE)
    );
    // and therefore unit-length normals, exactly, in fixed point
    for p in [culler.nx, culler.px, culler.ny, culler.py, culler.nz, culler.pz] {
        assert_eq!(p.x * p.x + p.y * p.y + p.z * p.z, FP_ONE * FP_ONE);
    }
}

#[test]
fn distance_squared_is_exact() {
    let a = Vec3::new(3, 4, 0);
    let b = Vec3::new(0, 0, 0);
    assert_eq!(a.distance_squared(&b), 25);
    let c = Vec3::new(-2, 5, 7);
    let d = Vec3::new(1, 1, 1);
    assert_eq!(c.distance_squared(&d), 9 + 16 + 36);
}
