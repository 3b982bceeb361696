//! Axis-aligned boxes and the six-plane frustum culler.
//!
//! [`FrustumCuller::from_matrix`] extracts the six clip-space planes of a
//! view-projection matrix by the row/column sums of the Gribb-Hartmann
//! method.  The planes are kept at the matrix's own scale: classifying a box
//! against a plane only compares a signed distance with zero, and that
//! comparison is invariant under any positive scaling of the plane (see
//! [`lemma_plane_scale_invariant`]), so no normalization is needed in fixed
//! point.

use vstd::prelude::*;

use crate::math::{coord_in_range, lemma_linear_min, lemma_mul_bound, Mat4, Vec3, COORD_MAX, FP_ONE};

verus! {

/// An axis-aligned bounding box given by its two extreme corners.
#[derive(Clone, Copy, Debug, PartialEq, Eq, Structural)]
pub struct Aabb {
    pub min: Vec3,
    pub max: Vec3,
}

impl Aabb {
    /// Construct from the two corners.  No validation is performed; callers
    /// guarantee `min <= max` componentwise.
    #[inline]
    pub fn from_params(min: Vec3, max: Vec3) -> (r: Aabb)
        ensures
            r == (Aabb { min, max }),
    {
        Aabb { min, max }
    }

    /// The corners are ordered: `min <= max` on every axis.
    pub open spec fn wf(self) -> bool {
        self.min.x <= self.max.x && self.min.y <= self.max.y && self.min.z <= self.max.z
    }

    /// Both corners lie in the coordinate range.
    pub open spec fn bounded(self) -> bool {
        self.min.bounded() && self.max.bounded()
    }

    /// `v` lies inside the box (inclusive on all faces).
    pub open spec fn contains_point(self, v: Vec3) -> bool {
        &&& self.min.x <= v.x <= self.max.x
        &&& self.min.y <= v.y <= self.max.y
        &&& self.min.z <= v.z <= self.max.z
    }

    /// Every point of `inner` lies inside `self`.
    pub open spec fn contains_box(self, inner: Aabb) -> bool {
        &&& self.min.x <= inner.min.x && inner.max.x <= self.max.x
        &&& self.min.y <= inner.min.y && inner.max.y <= self.max.y
        &&& self.min.z <= inner.min.z && inner.max.z <= self.max.z
    }
}

/// One clip-space plane `a*x + b*y + c*z + w >= 0`, fixed point.
#[derive(Clone, Copy, Debug, PartialEq, Eq, Structural)]
pub struct Plane {
    pub x: i64,
    pub y: i64,
    pub z: i64,
    pub w: i64,
}

/// A plane component may be the sum of two matrix entries, so its range is
/// twice the coordinate range.
pub open spec fn plane_comp_in_range(v: i64) -> bool {
    -2 * COORD_MAX <= v <= 2 * COORD_MAX
}

impl Plane {
    /// All four components lie in the widened plane range.
    pub open spec fn bounded(self) -> bool {
        plane_comp_in_range(self.x) && plane_comp_in_range(self.y) && plane_comp_in_range(self.z)
            && plane_comp_in_range(self.w)
    }

    /// Signed distance (up to the plane's scale) from the plane to a point:
    /// the dot product of the normal with the point plus the offset, with
    /// the offset brought to the products' fixed-point scale.
    pub open spec fn spec_dist(self, v: Vec3) -> int {
        self.x * v.x + self.y * v.y + self.z * v.z + self.w * FP_ONE
    }

    /// Squared length of the plane's normal vector.
    pub open spec fn normal_norm_sq(self) -> int {
        self.x * self.x + self.y * self.y + self.z * self.z
    }

    /// The box corner furthest along the plane's normal: where the linear
    /// form `a*x + b*y + c*z` attains its maximum over the box.
    pub open spec fn pos_vertex(self, a: Aabb) -> Vec3 {
        Vec3 {
            x: if self.x < 0 {
                a.min.x
            } else {
                a.max.x
            },
            y: if self.y < 0 {
                a.min.y
            } else {
                a.max.y
            },
            z: if self.z < 0 {
                a.min.z
            } else {
                a.max.z
            },
        }
    }

    /// The opposite corner: where the linear form attains its minimum.
    pub open spec fn neg_vertex(self, a: Aabb) -> Vec3 {
        Vec3 {
            x: if self.x < 0 {
                a.max.x
            } else {
                a.min.x
            },
            y: if self.y < 0 {
                a.max.y
            } else {
                a.min.y
            },
            z: if self.z < 0 {
                a.max.z
            } else {
                a.min.z
            },
        }
    }

    /// Exact signed distance to a point, in `i128`.
    pub fn dist(&self, v: &Vec3) -> (r: i128)
        requires
            self.bounded(),
            v.bounded(),
        ensures
            r == self.spec_dist(*v),
    {
        proof {
            lemma_mul_bound(self.x as int, v.x as int, 2 * COORD_MAX, COORD_MAX as int);
            lemma_mul_bound(self.y as int, v.y as int, 2 * COORD_MAX, COORD_MAX as int);
            lemma_mul_bound(self.z as int, v.z as int, 2 * COORD_MAX, COORD_MAX as int);
            lemma_mul_bound(self.w as int, FP_ONE as int, 2 * COORD_MAX, FP_ONE as int);
        }
        self.x as i128 * v.x as i128 + self.y as i128 * v.y as i128 + self.z as i128
            * v.z as i128 + self.w as i128 * FP_ONE as i128
    }

    /// Distance to the corner furthest along the normal.
    fn dist_pos_vertex(&self, a: &Aabb) -> (r: i128)
        requires
            self.bounded(),
            a.bounded(),
        ensures
            r == self.spec_dist(self.pos_vertex(*a)),
    {
        let v = Vec3 {
            x: if self.x < 0 {
                a.min.x
            } else {
                a.max.x
            },
            y: if self.y < 0 {
                a.min.y
            } else {
                a.max.y
            },
            z: if self.z < 0 {
                a.min.z
            } else {
                a.max.z
            },
        };
        self.dist(&v)
    }

    /// Distance to the corner furthest against the normal.
    fn dist_neg_vertex(&self, a: &Aabb) -> (r: i128)
        requires
            self.bounded(),
            a.bounded(),
        ensures
            r == self.spec_dist(self.neg_vertex(*a)),
    {
        let v = Vec3 {
            x: if self.x < 0 {
                a.max.x
            } else {
                a.min.x
            },
            y: if self.y < 0 {
                a.max.y
            } else {
                a.min.y
            },
            z: if self.z < 0 {
                a.max.z
            } else {
                a.min.z
            },
        };
        self.dist(&v)
    }
}

/// Result of testing a box against the frustum: wholly inside, straddling a
/// plane, or wholly outside.
#[derive(Clone, Copy, Debug, PartialEq, Eq, Structural)]
pub enum Intersection {
    Inside,
    Partial,
    Outside,
}

/// The six planes of a view frustum, derived from a view-projection matrix.
/// `nx` is the plane bounding the negative-x side of clip space, `px` the
/// positive-x side, and so on.
#[derive(Clone, Copy, Debug, PartialEq, Eq, Structural)]
pub struct FrustumCuller {
    pub nx: Plane,
    pub px: Plane,
    pub ny: Plane,
    pub py: Plane,
    pub nz: Plane,
    pub pz: Plane,
}

impl FrustumCuller {
    /// All six planes have bounded components.
    pub open spec fn wf(self) -> bool {
        self.nx.bounded() && self.px.bounded() && self.ny.bounded() && self.py.bounded()
            && self.nz.bounded() && self.pz.bounded()
    }

    /// The Gribb-Hartmann plane extraction: each clip plane is the matrix's
    /// fourth row plus or minus one of the first three rows (in column-major
    /// terms, the `w` component of each axis plus or minus that axis's `x`,
    /// `y` or `z` component).
    pub open spec fn spec_from_matrix(m: Mat4) -> FrustumCuller {
        FrustumCuller {
            nx: Plane {
                x: (m.xw + m.xx) as i64,
                y: (m.yw + m.yx) as i64,
                z: (m.zw + m.zx) as i64,
                w: (m.ww + m.wx) as i64,
            },
            px: Plane {
                x: (m.xw - m.xx) as i64,
                y: (m.yw - m.yx) as i64,
                z: (m.zw - m.zx) as i64,
                w: (m.ww - m.wx) as i64,
            },
            ny: Plane {
                x: (m.xw + m.xy) as i64,
                y: (m.yw + m.yy) as i64,
                z: (m.zw + m.zy) as i64,
                w: (m.ww + m.wy) as i64,
            },
            py: Plane {
                x: (m.xw - m.xy) as i64,
                y: (m.yw - m.yy) as i64,
                z: (m.zw - m.zy) as i64,
                w: (m.ww - m.wy) as i64,
            },
            nz: Plane {
                x: (m.xw + m.xz) as i64,
                y: (m.yw + m.yz) as i64,
                z: (m.zw + m.zz) as i64,
                w: (m.ww + m.wz) as i64,
            },
            pz: Plane {
                x: (m.xw - m.xz) as i64,
                y: (m.yw - m.yz) as i64,
                z: (m.zw - m.zz) as i64,
                w: (m.ww - m.wz) as i64,
            },
        }
    }

    /// Build the culler for a bounded view-projection matrix.
    pub fn from_matrix(m: &Mat4) -> (r: FrustumCuller)
        requires
            m.bounded(),
        ensures
            r == FrustumCuller::spec_from_matrix(*m),
            r.wf(),
    {
        FrustumCuller {
            nx: Plane { x: m.xw + m.xx, y: m.yw + m.yx, z: m.zw + m.zx, w: m.ww + m.wx },
            px: Plane { x: m.xw - m.xx, y: m.yw - m.yx, z: m.zw - m.zx, w: m.ww - m.wx },
            ny: Plane { x: m.xw + m.xy, y: m.yw + m.yy, z: m.zw + m.zy, w: m.ww + m.wy },
            py: Plane { x: m.xw - m.xy, y: m.yw - m.yy, z: m.zw - m.zy, w: m.ww - m.wy },
            nz: Plane { x: m.xw + m.xz, y: m.yw + m.yz, z: m.zw + m.zz, w: m.ww + m.wz },
            pz: Plane { x: m.xw - m.xz, y: m.yw - m.yz, z: m.zw - m.zz, w: m.ww - m.wz },
        }
    }

    /// Some plane has the whole box strictly on its outer side: even the
    /// corner furthest inward fails the plane test.
    pub open spec fn outside_any(self, a: Aabb) -> bool {
        ||| self.nx.spec_dist(self.nx.pos_vertex(a)) < 0
        ||| self.px.spec_dist(self.px.pos_vertex(a)) < 0
        ||| self.ny.spec_dist(self.ny.pos_vertex(a)) < 0
        ||| self.py.spec_dist(self.py.pos_vertex(a)) < 0
        ||| self.nz.spec_dist(self.nz.pos_vertex(a)) < 0
        ||| self.pz.spec_dist(self.pz.pos_vertex(a)) < 0
    }

    /// Every plane passes even at the corner furthest against its normal:
    /// the whole box is on the inner side of all six planes.
    pub open spec fn inside_all(self, a: Aabb) -> bool {
        &&& self.nx.spec_dist(self.nx.neg_vertex(a)) >= 0
        &&& self.px.spec_dist(self.px.neg_vertex(a)) >= 0
        &&& self.ny.spec_dist(self.ny.neg_vertex(a)) >= 0
        &&& self.py.spec_dist(self.py.neg_vertex(a)) >= 0
        &&& self.nz.spec_dist(self.nz.neg_vertex(a)) >= 0
        &&& self.pz.spec_dist(self.pz.neg_vertex(a)) >= 0
    }

    /// The tri-state classification of a box against the frustum.
    pub open spec fn spec_classify(self, a: Aabb) -> Intersection {
        if self.outside_any(a) {
            Intersection::Outside
        } else if self.inside_all(a) {
            Intersection::Inside
        } else {
            Intersection::Partial
        }
    }

    /// Classify a box against the six planes.  Planes are tested in the
    /// order `nx, px, ny, py, nz, pz`, each first at its positive vertex,
    /// and the test returns `Outside` at the first failing plane without
    /// evaluating the rest.
    pub fn test_bounding_box(&self, aab: &Aabb) -> (r: Intersection)
        requires
            self.wf(),
            aab.bounded(),
        ensures
            r == self.spec_classify(*aab),
    {
        let mut all_inside = true;

        if self.nx.dist_pos_vertex(aab) < 0 {
            return Intersection::Outside;
        }
        all_inside = all_inside && self.nx.dist_neg_vertex(aab) >= 0;

        if self.px.dist_pos_vertex(aab) < 0 {
            return Intersection::Outside;
        }
        all_inside = all_inside && self.px.dist_neg_vertex(aab) >= 0;

        if self.ny.dist_pos_vertex(aab) < 0 {
            return Intersection::Outside;
        }
        all_inside = all_inside && self.ny.dist_neg_vertex(aab) >= 0;

        if self.py.dist_pos_vertex(aab) < 0 {
            return Intersection::Outside;
        }
        all_inside = all_inside && self.py.dist_neg_vertex(aab) >= 0;

        if self.nz.dist_pos_vertex(aab) < 0 {
            return Intersection::Outside;
        }
        all_inside = all_inside && self.nz.dist_neg_vertex(aab) >= 0;

        if self.pz.dist_pos_vertex(aab) < 0 {
            return Intersection::Outside;
        }
        all_inside = all_inside && self.pz.dist_neg_vertex(aab) >= 0;

        if all_inside {
            Intersection::Inside
        } else {
            Intersection::Partial
        }
    }
}

/// Over a well-formed box the linear form of a plane is minimized at the
/// negative vertex: any point of the box is at least as far inside.
pub proof fn lemma_point_above_neg_vertex(p: Plane, a: Aabb, v: Vec3)
    requires
        a.wf(),
        a.contains_point(v),
    ensures
        p.spec_dist(v) >= p.spec_dist(p.neg_vertex(a)),
{
    lemma_linear_min(p.x as int, v.x as int, a.min.x as int, a.max.x as int);
    lemma_linear_min(p.y as int, v.y as int, a.min.y as int, a.max.y as int);
    lemma_linear_min(p.z as int, v.z as int, a.min.z as int, a.max.z as int);
}

/// Classification is invariant under scaling a plane by a positive factor:
/// this is why the culler may keep its planes unnormalized.
pub proof fn lemma_plane_scale_invariant(p: Plane, q: Plane, k: int, v: Vec3)
    requires
        k > 0,
        q.x == k * p.x,
        q.y == k * p.y,
        q.z == k * p.z,
        q.w == k * p.w,
    ensures
        (q.spec_dist(v) >= 0) <==> (p.spec_dist(v) >= 0),
{
    let a = p.x * v.x;
    let b = p.y * v.y;
    let c = p.z * v.z;
    let d = p.w * FP_ONE;
    assert(q.x * v.x == k * a) by (nonlinear_arith)
        requires
            q.x == k * p.x,
            a == p.x * v.x,
    ;
    assert(q.y * v.y == k * b) by (nonlinear_arith)
        requires
            q.y == k * p.y,
            b == p.y * v.y,
    ;
    assert(q.z * v.z == k * c) by (nonlinear_arith)
        requires
            q.z == k * p.z,
            c == p.z * v.z,
    ;
    assert(q.w * FP_ONE == k * d) by (nonlinear_arith)
        requires
            q.w == k * p.w,
            d == p.w * FP_ONE,
    ;
    assert(k * a + k * b + k * c + k * d == k * (a + b + c + d)) by (nonlinear_arith);
    assert((k * (a + b + c + d) >= 0) <==> (a + b + c + d >= 0)) by (nonlinear_arith)
        requires
            k > 0,
    ;
}

/// A box whose positive vertex fails some plane is classified `Outside`.
pub proof fn lemma_outside_definitional(c: FrustumCuller, a: Aabb)
    requires
        c.outside_any(a),
    ensures
        c.spec_classify(a) == Intersection::Outside,
{
}

/// A box whose positive and negative vertices pass every plane is
/// classified `Inside`.
pub proof fn lemma_inside_definitional(c: FrustumCuller, a: Aabb)
    requires
        !c.outside_any(a),
        c.inside_all(a),
    ensures
        c.spec_classify(a) == Intersection::Inside,
{
}

/// Shrinking a box that is wholly inside the frustum can never push it
/// outside: any box contained in an `Inside` box is at worst `Partial`.
pub proof fn lemma_shrink_keeps_visible(c: FrustumCuller, outer: Aabb, inner: Aabb)
    requires
        outer.wf(),
        inner.wf(),
        outer.contains_box(inner),
        c.spec_classify(outer) == Intersection::Inside,
    ensures
        c.spec_classify(inner) != Intersection::Outside,
{
    lemma_point_above_neg_vertex(c.nx, outer, c.nx.pos_vertex(inner));
    lemma_point_above_neg_vertex(c.px, outer, c.px.pos_vertex(inner));
    lemma_point_above_neg_vertex(c.ny, outer, c.ny.pos_vertex(inner));
    lemma_point_above_neg_vertex(c.py, outer, c.py.pos_vertex(inner));
    lemma_point_above_neg_vertex(c.nz, outer, c.nz.pos_vertex(inner));
    lemma_point_above_neg_vertex(c.pz, outer, c.pz.pos_vertex(inner));
}

/// The culler of the identity view-projection has six unit-length plane
/// normals: each squared norm is exactly one in fixed point.
pub proof fn lemma_identity_frustum_unit_normals()
    ensures
        FrustumCuller::spec_from_matrix(Mat4::spec_identity()).nx.normal_norm_sq() == FP_ONE
            * FP_ONE,
        FrustumCuller::spec_from_matrix(Mat4::spec_identity()).px.normal_norm_sq() == FP_ONE
            * FP_ONE,
        FrustumCuller::spec_from_matrix(Mat4::spec_identity()).ny.normal_norm_sq() == FP_ONE
            * FP_ONE,
        FrustumCuller::spec_from_matrix(Mat4::spec_identity()).py.normal_norm_sq() == FP_ONE
            * FP_ONE,
        FrustumCuller::spec_from_matrix(Mat4::spec_identity()).nz.normal_norm_sq() == FP_ONE
            * FP_ONE,
        FrustumCuller::spec_from_matrix(Mat4::spec_identity()).pz.normal_norm_sq() == FP_ONE
            * FP_ONE,
{
    let c = FrustumCuller::spec_from_matrix(Mat4::spec_identity());
    assert(c.nx == (Plane { x: FP_ONE, y: 0, z: 0, w: FP_ONE }));
    assert(c.px == (Plane { x: ((-FP_ONE) as i64), y: 0, z: 0, w: FP_ONE }));
    assert(c.ny == (Plane { x: 0, y: FP_ONE, z: 0, w: FP_ONE }));
    assert(c.py == (Plane { x: 0, y: ((-FP_ONE) as i64), z: 0, w: FP_ONE }));
    assert(c.nz == (Plane { x: 0, y: 0, z: FP_ONE, w: FP_ONE }));
    assert(c.pz == (Plane { x: 0, y: 0, z: ((-FP_ONE) as i64), w: FP_ONE }));
    lemma_axis_unit_norm(c.nx.x as int, c.nx.y as int, c.nx.z as int, FP_ONE as int);
    lemma_axis_unit_norm(c.px.x as int, c.px.y as int, c.px.z as int, FP_ONE as int);
    lemma_axis_unit_norm(c.ny.y as int, c.ny.x as int, c.ny.z as int, FP_ONE as int);
    lemma_axis_unit_norm(c.py.y as int, c.py.x as int, c.py.z as int, FP_ONE as int);
    lemma_axis_unit_norm(c.nz.z as int, c.nz.x as int, c.nz.y as int, FP_ONE as int);
    lemma_axis_unit_norm(c.pz.z as int, c.pz.x as int, c.pz.y as int, FP_ONE as int);
}

/// A vector with one component of magnitude `s` and the rest zero has
/// squared norm `s * s`.
proof fn lemma_axis_unit_norm(x: int, y: int, z: int, s: int)
    by (nonlinear_arith)
    requires
        x == s || x == -s,
        y == 0,
        z == 0,
    ensures
        x * x + y * y + z * z == s * s,
{
}

} // verus!
