//! The node through which the scene is seen.

use crate::error::DecodeError;
use crate::scene::base::{Base, BaseView};
use crate::visitor::{carried, Decoded, Visit, Visitor};
use vstd::prelude::*;

verus! {

/// The field of view of a camera at the start: the bit pattern of 75 degrees
/// in radians.
pub const DEFAULT_FOV: u32 = 0x3FA7_8D36;

/// The near clipping distance of a camera at the start: the bit pattern of
/// 0.025.
pub const DEFAULT_Z_NEAR: u32 = 0x3CCC_CCCD;

/// The far clipping distance of a camera at the start: the bit pattern of
/// 2048.0.
pub const DEFAULT_Z_FAR: u32 = 0x4500_0000;

/// A camera with a perspective projection. Its settings are bit patterns of
/// single-precision numbers.
#[derive(Clone, Debug, PartialEq, Eq)]
pub struct Camera {
    /// The state that the node shares with the nodes of all kinds.
    pub base: Base,
    /// The vertical field of view in radians.
    pub fov: u32,
    /// The distance of the near clipping plane.
    pub z_near: u32,
    /// The distance of the far clipping plane.
    pub z_far: u32,
}

/// What a [`Camera`] holds.
pub struct CameraView {
    pub base: BaseView,
    pub fov: u32,
    pub z_near: u32,
    pub z_far: u32,
}

impl CameraView {
    /// The state in which a camera starts.
    pub open spec fn spec_default() -> CameraView {
        CameraView {
            base: BaseView::spec_default(),
            fov: DEFAULT_FOV,
            z_near: DEFAULT_Z_NEAR,
            z_far: DEFAULT_Z_FAR,
        }
    }
}

impl View for Camera {
    type V = CameraView;

    open spec fn view(&self) -> CameraView {
        CameraView { base: self.base@, fov: self.fov, z_near: self.z_near, z_far: self.z_far }
    }
}

impl Camera {
    /// A camera in its starting state.
    pub fn new() -> (camera: Camera)
        ensures
            camera@ == CameraView::spec_default(),
    {
        Camera { base: Base::new(), fov: DEFAULT_FOV, z_near: DEFAULT_Z_NEAR, z_far: DEFAULT_Z_FAR }
    }
}

impl Default for Camera {
    fn default() -> (camera: Camera)
        ensures
            camera@ == CameraView::spec_default(),
    {
        Camera::new()
    }
}

impl Visit for Camera {
    open spec fn encodable(value: CameraView) -> bool {
        Base::encodable(value.base)
    }

    /// The shared state, `fov`, `z_near`, `z_far`.
    open spec fn encoding(value: CameraView) -> Seq<u8> {
        Base::encoding(value.base)
            + u32::encoding(value.fov)
            + u32::encoding(value.z_near)
            + u32::encoding(value.z_far)
    }

    /// The fields are read in the order in which they are written, each into
    /// its place; the read stops at the first that fails.
    open spec fn decoding(dest: CameraView, input: Seq<u8>) -> Decoded<CameraView> {
        let base = Base::decoding(dest.base, input);
        let with_base = CameraView { base: base.value, ..dest };
        if base.fault is Some {
            carried(base, with_base)
        } else {
            let fov = u32::decoding(dest.fov, base.rest);
            let with_fov = CameraView { fov: fov.value, ..with_base };
            if fov.fault is Some {
                carried(fov, with_fov)
            } else {
                let z_near = u32::decoding(dest.z_near, fov.rest);
                let with_z_near = CameraView { z_near: z_near.value, ..with_fov };
                if z_near.fault is Some {
                    carried(z_near, with_z_near)
                } else {
                    let z_far = u32::decoding(dest.z_far, z_near.rest);
                    carried(z_far, CameraView { z_far: z_far.value, ..with_z_near })
                }
            }
        }
    }

    open spec fn restored(value: CameraView, dest: CameraView) -> CameraView {
        CameraView { base: Base::restored(value.base, dest.base), ..value }
    }

    fn visit(&mut self, visitor: &mut Visitor) -> (result: Result<(), DecodeError>) {
        self.base.visit(visitor)?;
        self.fov.visit(visitor)?;
        self.z_near.visit(visitor)?;
        self.z_far.visit(visitor)?;
        Ok(())
    }

    proof fn lemma_reads_back(value: CameraView, dest: CameraView, rest: Seq<u8>) {
        let after_z_near = u32::encoding(value.z_far) + rest;
        let after_fov = u32::encoding(value.z_near) + after_z_near;
        let after_base = u32::encoding(value.fov) + after_fov;
        Base::lemma_reads_back(value.base, dest.base, after_base);
        u32::lemma_reads_back(value.fov, dest.fov, after_fov);
        u32::lemma_reads_back(value.z_near, dest.z_near, after_z_near);
        u32::lemma_reads_back(value.z_far, dest.z_far, rest);
        assert(Camera::encoding(value) + rest =~= Base::encoding(value.base) + after_base);
    }
}

} // verus!
