use crate::transform::{
    bounded, compose_spec, fits_i64, inverse_spec, rigid, Rigid, RigidTransform, ENTRY_BOUND,
};
use vstd::prelude::*;

verus! {

/// Which eye a view belongs to; `Mono` is the single view of a
/// non-stereo session.
#[derive(Clone, Copy, PartialEq, Eq, Structural, Debug)]
pub enum XREye {
    Mono,
    Left,
    Right,
}

/// Handle into the session registry owned by the caller: the record keeps a
/// non-owning back-reference for identity purposes only, and the session must
/// outlive every record derived from it.
#[derive(Clone, Copy, PartialEq, Eq, Structural, Debug)]
pub struct SessionId(pub u64);

/// A 4x4 projection matrix, one field per entry, `mRC` standing in row `R`
/// and column `C`.
///
/// The entries are opaque 32-bit scalar words: the core never computes with
/// them, it only copies them into a record and serializes them row-major,
/// so their encoding is the concern of the boundary that produces and
/// consumes them.
#[derive(Clone, Copy, PartialEq, Eq, Structural, Debug)]
pub struct Projection {
    pub m11: u32,
    pub m12: u32,
    pub m13: u32,
    pub m14: u32,
    pub m21: u32,
    pub m22: u32,
    pub m23: u32,
    pub m24: u32,
    pub m31: u32,
    pub m32: u32,
    pub m33: u32,
    pub m34: u32,
    pub m41: u32,
    pub m42: u32,
    pub m43: u32,
    pub m44: u32,
}

/// Row-major serialization of a projection matrix: element `4 * r + c` of
/// the result is the entry in row `r` and column `c`, rows contiguous.
pub open spec fn row_major_spec(p: Projection) -> Seq<u32> {
    seq![
        p.m11,
        p.m12,
        p.m13,
        p.m14,
        p.m21,
        p.m22,
        p.m23,
        p.m24,
        p.m31,
        p.m32,
        p.m33,
        p.m34,
        p.m41,
        p.m42,
        p.m43,
        p.m44,
    ]
}

impl Projection {
    /// Serialize the matrix in row-major order.
    pub fn to_row_major_array(&self) -> (v: Vec<u32>)
        ensures
            v@ == row_major_spec(*self),
    {
        let v = vec![
            self.m11,
            self.m12,
            self.m13,
            self.m14,
            self.m21,
            self.m22,
            self.m23,
            self.m24,
            self.m31,
            self.m32,
            self.m33,
            self.m34,
            self.m41,
            self.m42,
            self.m43,
            self.m44,
        ];
        proof {
            assert(v@ =~= row_major_spec(*self));
        }
        v
    }
}

/// Per-eye view descriptor, supplied fresh each frame by the pose source:
/// the eye-space transform (from viewer space into eye space) and the eye's
/// projection matrix.
#[derive(Clone, Copy, PartialEq, Eq, Structural, Debug)]
pub struct ViewDescriptor {
    pub transform: RigidTransform,
    pub projection: Projection,
}

/// The per-eye view record: eye identity, the eye's rigid transform in the
/// session's reference space, a back-reference to the owning session, and a
/// lazily filled projection-matrix cache.
///
/// Geometric content is fixed at construction; the only mutation the record
/// ever sees is the one-time population of the cache slot.
pub struct XRView {
    pub session: SessionId,
    pub eye: XREye,
    pub proj: Option<Vec<u32>>,
    pub view: ViewDescriptor,
    pub transform: RigidTransform,
}

/// Well-formedness of a record: the derived transform is rigid, and the
/// cache slot, once populated, holds exactly the row-major serialization of
/// the record's own projection parameters.
pub open spec fn wf(v: XRView) -> bool {
    &&& rigid(v.transform@)
    &&& (v.proj matches Some(p) ==> p@ == row_major_spec(v.view.projection))
}

impl XRView {
    /// Compose a per-eye view record.
    ///
    /// The descriptor's transform maps viewer space into eye space, so it is
    /// inverted to obtain the pose of the eye in viewer space, and that
    /// offset is applied first, the viewer pose second; the result is the
    /// eye's pose in the session's reference space. The descriptor's
    /// projection parameters are copied by value and the cache slot starts
    /// empty. The bounds in the preconditions only keep the exact integer
    /// entries of the composed transforms inside `i64`.
    pub fn new(session: SessionId, view: &ViewDescriptor, eye: XREye, pose: &RigidTransform) -> (r: XRView)
        requires
            rigid(pose@),
            rigid(view.transform@),
            bounded(pose@, ENTRY_BOUND as int),
            bounded(view.transform@, ENTRY_BOUND as int),
            bounded(inverse_spec(view.transform@), ENTRY_BOUND as int),
            fits_i64(inverse_spec(view.transform@)),
            fits_i64(compose_spec(pose@, inverse_spec(view.transform@))),
        ensures
            r.session == session,
            r.eye == eye,
            r.view == *view,
            r.transform@ == compose_spec(pose@, inverse_spec(view.transform@)),
            r.proj is None,
            wf(r),
    {
        let offset = view.transform.inverse();
        let transform = pose.pre_transform(&offset);
        XRView { session, eye, proj: None, view: *view, transform }
    }

    /// The stored per-eye view descriptor.
    pub fn view(&self) -> (r: &ViewDescriptor)
        ensures
            *r == self.view,
    {
        &self.view
    }

    /// The owning session's handle.
    pub fn session(&self) -> (r: SessionId)
        ensures
            r == self.session,
    {
        self.session
    }

    /// The eye identity, preserved verbatim from construction.
    pub fn eye(&self) -> (r: XREye)
        ensures
            r == self.eye,
    {
        self.eye
    }

    /// The eye's rigid transform in the session's reference space.
    pub fn transform(&self) -> (r: &RigidTransform)
        ensures
            *r == self.transform,
    {
        &self.transform
    }

    /// The row-major projection array, computed on first access and cached
    /// for the life of the record.
    ///
    /// The first call populates the cache slot; every later call returns a
    /// reference into the same slot without recomputation, so repeated
    /// accesses observe an unchanged record and bit-identical contents.
    pub fn projection_matrix(&mut self) -> (r: &Vec<u32>)
        requires
            wf(*old(self)),
        ensures
            wf(*final(self)),
            r@ == row_major_spec(old(self).view.projection),
            final(self).proj matches Some(p) && p@ == row_major_spec(old(self).view.projection),
            final(self).session == old(self).session,
            final(self).eye == old(self).eye,
            final(self).view == old(self).view,
            final(self).transform == old(self).transform,
            old(self).proj is Some ==> *final(self) == *old(self),
    {
        if self.proj.is_none() {
            let arr = self.view.projection.to_row_major_array();
            self.proj = Some(arr);
        }
        self.proj.as_ref().unwrap()
    }
}

} // verus!
