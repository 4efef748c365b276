//! Per-eye view records for a stereo rendering session.
//!
//! The library composes a viewer pose with an eye-space offset to obtain the
//! eye's rigid transform in the session's reference space, and lazily caches
//! the eye's projection matrix as a flat row-major array.
//!
//! Geometry is exact: a rigid transform is an integer matrix `m` together with
//! a pre-scaled translation `u` and a positive scale `s`, denoting the map
//! `x -> (m * x + u) / s`, with `m * transpose(m) == s^2 * identity`.

mod transform;
mod view;

pub use transform::apply_hom;
pub use transform::bounded;
pub use transform::compose_spec;
pub use transform::equiv;
pub use transform::fits_i64;
pub use transform::hom_fits_i64;
pub use transform::hom_scale;
pub use transform::inverse_spec;
pub use transform::lemma_compose_action;
pub use transform::lemma_apply_scale;
pub use transform::lemma_compose_rigid;
pub use transform::lemma_inverse_matches_independent_chain;
pub use transform::lemma_inverse_rigid;
pub use transform::lemma_left_inverse_action;
pub use transform::lemma_order_sensitive;
pub use transform::lemma_right_inverse_action;
pub use transform::lemma_scale_scale;
pub use transform::rigid;
pub use transform::Hom;
pub use transform::HomPoint;
pub use transform::Rigid;
pub use transform::RigidTransform;
pub use transform::ENTRY_BOUND;
pub use view::row_major_spec;
pub use view::wf;
pub use view::Projection;
pub use view::SessionId;
pub use view::ViewDescriptor;
pub use view::XREye;
pub use view::XRView;
