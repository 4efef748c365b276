use xrview::{Projection, RigidTransform, SessionId, ViewDescriptor, XREye, XRView};

/// A pure translation by `(x, y, z) / s`, exact.
fn translation(x: i64, y: i64, z: i64, s: i64) -> RigidTransform {
    RigidTransform {
        m11: s,
        m12: 0,
        m13: 0,
        m21: 0,
        m22: s,
        m23: 0,
        m31: 0,
        m32: 0,
        m33: s,
        ux: x,
        uy: y,
        uz: z,
        s,
    }
}

/// A quarter turn about the `z` axis followed by a translation, exact.
fn rot90_z(x: i64, y: i64, z: i64) -> RigidTransform {
    RigidTransform {
        m11: 0,
        m12: -1,
        m13: 0,
        m21: 1,
        m22: 0,
        m23: 0,
        m31: 0,
        m32: 0,
        m33: 1,
        ux: x,
        uy: y,
        uz: z,
        s: 1,
    }
}

fn projection_with(entries: [u32; 16]) -> Projection {
    Projection {
        m11: entries[0],
        m12: entries[1],
        m13: entries[2],
        m14: entries[3],
        m21: entries[4],
        m22: entries[5],
        m23: entries[6],
        m24: entries[7],
        m31: entries[8],
        m32: entries[9],
        m33: entries[10],
        m34: entries[11],
        m41: entries[12],
        m42: entries[13],
        m43: entries[14],
        m44: entries[15],
    }
}

fn counting_projection() -> Projection {
    let mut e = [0u32; 16];
    let mut i = 0usize;
    while i < 16 {
        e[i] = (i as u32) + 1;
        i += 1;
    }
    projection_with(e)
}

#[test]
fn eye_identity_preserved() {
    let descriptor = ViewDescriptor {
        transform: translation(1, 2, 3, 1),
        projection: counting_projection(),
    };
    let pose = RigidTransform::identity();
    let record = XRView::new(SessionId(7), &descriptor, XREye::Right, &pose);
    assert_eq!(record.eye(), XREye::Right);
    assert_eq!(record.session(), SessionId(7));
    assert_eq!(*record.view(), descriptor);
    let record = XRView::new(SessionId(7), &descriptor, XREye::Left, &pose);
    assert_eq!(record.eye(), XREye::Left);
    let record = XRView::new(SessionId(7), &descriptor, XREye::Mono, &pose);
    assert_eq!(record.eye(), XREye::Mono);
}

#[test]
fn eye_offset_translation() {
    // Viewer at identity; the eye-space offset maps viewer space to eye
    // space as a translation of (0.03, 0, 0). The composed eye transform
    // must sit at (-0.03, 0, 0) in the reference space.
    let descriptor = ViewDescriptor {
        transform: translation(3, 0, 0, 100),
        projection: counting_projection(),
    };
    let pose = RigidTransform::identity();
    let record = XRView::new(SessionId(1), &descriptor, XREye::Left, &pose);
    let expected = translation(-3, 0, 0, 100);
    assert!(record.transform().same_transform(&expected));
    let t = record.transform();
    let tx = t.ux as f64 / t.s as f64;
    let ty = t.uy as f64 / t.s as f64;
    let tz = t.uz as f64 / t.s as f64;
    assert!((tx - (-0.03)).abs() < 1e-9);
    assert!(ty.abs() < 1e-9 && tz.abs() < 1e-9);
}

#[test]
fn composition_order_matters() {
    // A rotating pose and a translating offset compose to different
    // transforms in the two orders: the classic transform-order defect.
    let pose = rot90_z(0, 0, 0);
    let offset_inverted = translation(3, 0, 0, 1);
    let correct = pose.pre_transform(&offset_inverted);
    let swapped = offset_inverted.pre_transform(&pose);
    assert!(!correct.same_transform(&swapped));
    // Offset applied first, then the rotation: the offset itself rotates.
    assert_eq!((correct.ux, correct.uy, correct.uz), (0, 3, 0));
    // Rotation applied first: the offset stays on the x axis.
    assert_eq!((swapped.ux, swapped.uy, swapped.uz), (3, 0, 0));
}

#[test]
fn composition_matches_reference_algebra() {
    // Oracle check: the composed-then-inverted transform acting on a test
    // point must match an independent homogeneous 4x4 matrix computation.
    let pose = rot90_z(5, -2, 7);
    let offset = translation(3, 1, -4, 1);
    let composed = pose.pre_transform(&offset.inverse());
    let whole_inverted = composed.inverse();

    // Reference: H(offset) * H(pose)^-1 on the point, in f64 algebra.
    let hp = [[0.0, -1.0, 0.0, 5.0], [1.0, 0.0, 0.0, -2.0], [0.0, 0.0, 1.0, 7.0], [
        0.0, 0.0, 0.0, 1.0,
    ]];
    // Inverse of the pose: transpose of the rotation, rotated-back negated
    // translation.
    let mut hp_inv = [[0.0f64; 4]; 4];
    for r in 0..3 {
        for c in 0..3 {
            hp_inv[r][c] = hp[c][r];
        }
    }
    for r in 0..3 {
        let mut acc = 0.0;
        for c in 0..3 {
            acc -= hp_inv[r][c] * hp[c][3];
        }
        hp_inv[r][3] = acc;
    }
    hp_inv[3][3] = 1.0;
    let ho = [[1.0, 0.0, 0.0, 3.0], [0.0, 1.0, 0.0, 1.0], [0.0, 0.0, 1.0, -4.0], [
        0.0, 0.0, 0.0, 1.0,
    ]];
    let mut href = [[0.0f64; 4]; 4];
    for r in 0..4 {
        for c in 0..4 {
            let mut acc = 0.0;
            for k in 0..4 {
                acc += ho[r][k] * hp_inv[k][c];
            }
            href[r][c] = acc;
        }
    }
    let p = [11.0f64, -6.0, 2.0, 1.0];
    let mut expected = [0.0f64; 4];
    for r in 0..4 {
        let mut acc = 0.0;
        for k in 0..4 {
            acc += href[r][k] * p[k];
        }
        expected[r] = acc;
    }

    let q = whole_inverted.transform_point(&xrview::HomPoint { x: 11, y: -6, z: 2, w: 1 });
    let qw = q.w as f64;
    assert!((q.x as f64 / qw - expected[0]).abs() < 1e-6);
    assert!((q.y as f64 / qw - expected[1]).abs() < 1e-6);
    assert!((q.z as f64 / qw - expected[2]).abs() < 1e-6);
}

#[test]
fn composition_matches_euclid() {
    // The same composition the pose library performs: invert the eye-space
    // offset, then apply it before the viewer pose.
    let pose_t = euclid::default::Vector3D::<f32>::new(5.0, -2.0, 7.0);
    let off_t = euclid::default::Vector3D::<f32>::new(3.0, 1.0, -4.0);
    let pose_e =
        euclid::default::RigidTransform3D::new(euclid::default::Rotation3D::identity(), pose_t);
    let off_e =
        euclid::default::RigidTransform3D::new(euclid::default::Rotation3D::identity(), off_t);
    let composed_e = off_e.inverse().then(&pose_e);

    let pose = translation(5, -2, 7, 1);
    let offset = translation(3, 1, -4, 1);
    let composed = pose.pre_transform(&offset.inverse());
    assert_eq!(composed.s, 1);
    assert!((composed.ux as f32 - composed_e.translation.x).abs() < 1e-6);
    assert!((composed.uy as f32 - composed_e.translation.y).abs() < 1e-6);
    assert!((composed.uz as f32 - composed_e.translation.z).abs() < 1e-6);
}

#[test]
fn projection_cached_identical() {
    let descriptor = ViewDescriptor {
        transform: translation(1, 0, 0, 1),
        projection: counting_projection(),
    };
    let pose = RigidTransform::identity();
    let mut record = XRView::new(SessionId(2), &descriptor, XREye::Mono, &pose);
    let first = record.projection_matrix().clone();
    let second = record.projection_matrix().clone();
    assert_eq!(first, second);
    assert_eq!(first, descriptor.projection.to_row_major_array());
}

#[test]
fn projection_row_major_order() {
    let p = counting_projection();
    let flat = p.to_row_major_array();
    let expected: Vec<u32> = (1..=16).collect();
    assert_eq!(flat, expected);
    // Element 4 * r + c is the entry in row r, column c.
    assert_eq!(flat[4 * 1 + 2], p.m23);
    assert_eq!(flat[4 * 3 + 0], p.m41);
}

#[test]
fn projection_row_major_reference() {
    // A symmetric frustum with near = 0.1, far = 100, vertical fov = 90
    // degrees, serialized row-major, against a precomputed reference.
    let near = 0.1f32;
    let far = 100.0f32;
    let f = 1.0f32; // 1 / tan(45 degrees)
    let m33 = (far + near) / (near - far);
    let m34 = 2.0 * far * near / (near - far);
    let entries: [f32; 16] = [
        f, 0.0, 0.0, 0.0, 0.0, f, 0.0, 0.0, 0.0, 0.0, m33, m34, 0.0, 0.0, -1.0, 0.0,
    ];
    let mut words = [0u32; 16];
    for i in 0..16 {
        words[i] = entries[i].to_bits();
    }
    let descriptor = ViewDescriptor {
        transform: translation(0, 0, 0, 1),
        projection: projection_with(words),
    };
    let pose = RigidTransform::identity();
    let mut record = XRView::new(SessionId(3), &descriptor, XREye::Right, &pose);
    let flat = record.projection_matrix().clone();
    let reference: [f32; 16] = [
        1.0, 0.0, 0.0, 0.0, 0.0, 1.0, 0.0, 0.0, 0.0, 0.0, -1.002002, -0.2002002, 0.0, 0.0, -1.0,
        0.0,
    ];
    for i in 0..16 {
        let got = f32::from_bits(flat[i]);
        assert!((got - reference[i]).abs() < 1e-6, "entry {} differs", i);
    }
}

#[test]
fn independent_records_share_nothing() {
    // Two compositions with different viewer poses but the same descriptor:
    // equal cached projections, different transforms.
    let descriptor = ViewDescriptor {
        transform: translation(3, 0, 0, 100),
        projection: counting_projection(),
    };
    let pose_a = translation(1, 0, 0, 1);
    let pose_b = translation(0, 2, 0, 1);
    let mut rec_a = XRView::new(SessionId(4), &descriptor, XREye::Left, &pose_a);
    let mut rec_b = XRView::new(SessionId(4), &descriptor, XREye::Right, &pose_b);
    assert_eq!(
        rec_a.projection_matrix().clone(),
        rec_b.projection_matrix().clone()
    );
    assert!(!rec_a.transform().same_transform(rec_b.transform()));
}

#[test]
fn inverse_round_trip_on_points() {
    let t = rot90_z(4, -3, 9);
    let inv = t.inverse();
    let p = xrview::HomPoint { x: 10, y: 20, z: -5, w: 1 };
    let there = t.transform_point(&p);
    let back = inv.transform_point(&there);
    // Homogeneous equality: back == p up to the positive weight.
    assert_eq!(back.x * p.w, p.x * back.w);
    assert_eq!(back.y * p.w, p.y * back.w);
    assert_eq!(back.z * p.w, p.z * back.w);
}

#[test]
fn identity_composition_neutral() {
    let t = rot90_z(4, -3, 9);
    let id = RigidTransform::identity();
    assert_eq!(t.pre_transform(&id), t);
    assert_eq!(id.pre_transform(&t), t);
}
