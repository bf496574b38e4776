//! Position, rotation and scale of a node relative to its parent.
//!
//! A component is held as the bit pattern of an IEEE 754 single-precision
//! number. The library stores and moves components and never computes with
//! them, so every pattern is kept exactly.

use crate::error::DecodeError;
use crate::visitor::{filled, stopped, Decoded, Visit, Visitor};
use vstd::prelude::*;

verus! {

/// The bit pattern of 1.0.
pub const ONE: u32 = 0x3F80_0000;

/// Three components.
#[derive(Clone, Copy, Debug, PartialEq, Eq, Structural)]
pub struct Vector3 {
    pub x: u32,
    pub y: u32,
    pub z: u32,
}

/// Four components of a rotation; `w` is the scalar part.
#[derive(Clone, Copy, Debug, PartialEq, Eq, Structural)]
pub struct Quaternion {
    pub x: u32,
    pub y: u32,
    pub z: u32,
    pub w: u32,
}

/// Where a node stands relative to its parent.
#[derive(Clone, Copy, Debug, PartialEq, Eq, Structural)]
pub struct Transform {
    pub position: Vector3,
    pub rotation: Quaternion,
    pub scale: Vector3,
}

impl View for Vector3 {
    type V = Vector3;

    open spec fn view(&self) -> Vector3 {
        *self
    }
}

impl View for Quaternion {
    type V = Quaternion;

    open spec fn view(&self) -> Quaternion {
        *self
    }
}

impl View for Transform {
    type V = Transform;

    open spec fn view(&self) -> Transform {
        *self
    }
}

impl Transform {
    /// The transform that moves nothing: no offset, no rotation, scale 1.
    pub open spec fn spec_identity() -> Transform {
        Transform {
            position: Vector3 { x: 0, y: 0, z: 0 },
            rotation: Quaternion { x: 0, y: 0, z: 0, w: ONE },
            scale: Vector3 { x: ONE, y: ONE, z: ONE },
        }
    }

    /// The transform that moves nothing: no offset, no rotation, scale 1.
    #[verifier::when_used_as_spec(spec_identity)]
    pub fn identity() -> (transform: Transform)
        ensures
            transform == Transform::spec_identity(),
    {
        Transform {
            position: Vector3 { x: 0, y: 0, z: 0 },
            rotation: Quaternion { x: 0, y: 0, z: 0, w: ONE },
            scale: Vector3 { x: ONE, y: ONE, z: ONE },
        }
    }
}

impl Default for Transform {
    fn default() -> (transform: Transform)
        ensures
            transform == Transform::spec_identity(),
    {
        Transform::identity()
    }
}

impl Visit for Vector3 {
    open spec fn encodable(value: Vector3) -> bool {
        true
    }

    /// `x`, `y`, `z`: twelve bytes.
    open spec fn encoding(value: Vector3) -> Seq<u8> {
        u32::encoding(value.x) + u32::encoding(value.y) + u32::encoding(value.z)
    }

    /// All twelve bytes are read, or none.
    open spec fn decoding(dest: Vector3, input: Seq<u8>) -> Decoded<Vector3> {
        if input.len() >= 12 {
            filled(
                Vector3 {
                    x: u32::decoding(dest.x, input).value,
                    y: u32::decoding(dest.y, input.skip(4)).value,
                    z: u32::decoding(dest.z, input.skip(8)).value,
                },
                input.skip(12),
            )
        } else {
            stopped(dest, input, DecodeError::UnexpectedEnd)
        }
    }

    open spec fn restored(value: Vector3, dest: Vector3) -> Vector3 {
        value
    }

    fn visit(&mut self, visitor: &mut Visitor) -> (result: Result<(), DecodeError>) {
        if visitor.is_reading() && visitor.remaining() < 12 {
            return Err(DecodeError::UnexpectedEnd);
        }
        let ghost start = visitor.bytes();
        self.x.visit(visitor)?;
        self.y.visit(visitor)?;
        self.z.visit(visitor)?;
        proof {
            if visitor.reading() {
                assert(start.skip(4).skip(4) =~= start.skip(8));
            }
        }
        Ok(())
    }

    proof fn lemma_reads_back(value: Vector3, dest: Vector3, rest: Seq<u8>) {
        let after_y = u32::encoding(value.z) + rest;
        let after_x = u32::encoding(value.y) + after_y;
        u32::lemma_reads_back(value.x, dest.x, after_x);
        u32::lemma_reads_back(value.y, dest.y, after_y);
        u32::lemma_reads_back(value.z, dest.z, rest);
        let input = Vector3::encoding(value) + rest;
        assert(input =~= u32::encoding(value.x) + after_x);
        assert(input.skip(4).skip(4) =~= input.skip(8));
        assert(input.skip(8).skip(4) =~= input.skip(12));
    }
}

impl Visit for Quaternion {
    open spec fn encodable(value: Quaternion) -> bool {
        true
    }

    /// `x`, `y`, `z`, `w`: sixteen bytes.
    open spec fn encoding(value: Quaternion) -> Seq<u8> {
        u32::encoding(value.x) + u32::encoding(value.y) + u32::encoding(value.z) + u32::encoding(
            value.w,
        )
    }

    /// All sixteen bytes are read, or none.
    open spec fn decoding(dest: Quaternion, input: Seq<u8>) -> Decoded<Quaternion> {
        if input.len() >= 16 {
            filled(
                Quaternion {
                    x: u32::decoding(dest.x, input).value,
                    y: u32::decoding(dest.y, input.skip(4)).value,
                    z: u32::decoding(dest.z, input.skip(8)).value,
                    w: u32::decoding(dest.w, input.skip(12)).value,
                },
                input.skip(16),
            )
        } else {
            stopped(dest, input, DecodeError::UnexpectedEnd)
        }
    }

    open spec fn restored(value: Quaternion, dest: Quaternion) -> Quaternion {
        value
    }

    fn visit(&mut self, visitor: &mut Visitor) -> (result: Result<(), DecodeError>) {
        if visitor.is_reading() && visitor.remaining() < 16 {
            return Err(DecodeError::UnexpectedEnd);
        }
        let ghost start = visitor.bytes();
        self.x.visit(visitor)?;
        self.y.visit(visitor)?;
        self.z.visit(visitor)?;
        self.w.visit(visitor)?;
        proof {
            if visitor.reading() {
                assert(start.skip(4).skip(4) =~= start.skip(8));
                assert(start.skip(8).skip(4) =~= start.skip(12));
            }
        }
        Ok(())
    }

    proof fn lemma_reads_back(value: Quaternion, dest: Quaternion, rest: Seq<u8>) {
        let after_z = u32::encoding(value.w) + rest;
        let after_y = u32::encoding(value.z) + after_z;
        let after_x = u32::encoding(value.y) + after_y;
        u32::lemma_reads_back(value.x, dest.x, after_x);
        u32::lemma_reads_back(value.y, dest.y, after_y);
        u32::lemma_reads_back(value.z, dest.z, after_z);
        u32::lemma_reads_back(value.w, dest.w, rest);
        let input = Quaternion::encoding(value) + rest;
        assert(input =~= u32::encoding(value.x) + after_x);
        assert(input.skip(4).skip(4) =~= input.skip(8));
        assert(input.skip(8).skip(4) =~= input.skip(12));
        assert(input.skip(12).skip(4) =~= input.skip(16));
    }
}

impl Visit for Transform {
    open spec fn encodable(value: Transform) -> bool {
        true
    }

    /// Position, rotation, scale: forty bytes.
    open spec fn encoding(value: Transform) -> Seq<u8> {
        Vector3::encoding(value.position) + Quaternion::encoding(value.rotation)
            + Vector3::encoding(value.scale)
    }

    /// All forty bytes are read, or none.
    open spec fn decoding(dest: Transform, input: Seq<u8>) -> Decoded<Transform> {
        if input.len() >= 40 {
            filled(
                Transform {
                    position: Vector3::decoding(dest.position, input).value,
                    rotation: Quaternion::decoding(dest.rotation, input.skip(12)).value,
                    scale: Vector3::decoding(dest.scale, input.skip(28)).value,
                },
                input.skip(40),
            )
        } else {
            stopped(dest, input, DecodeError::UnexpectedEnd)
        }
    }

    open spec fn restored(value: Transform, dest: Transform) -> Transform {
        value
    }

    fn visit(&mut self, visitor: &mut Visitor) -> (result: Result<(), DecodeError>) {
        if visitor.is_reading() && visitor.remaining() < 40 {
            return Err(DecodeError::UnexpectedEnd);
        }
        let ghost start = visitor.bytes();
        self.position.visit(visitor)?;
        self.rotation.visit(visitor)?;
        self.scale.visit(visitor)?;
        proof {
            if visitor.reading() {
                assert(start.skip(12).skip(16) =~= start.skip(28));
            }
        }
        Ok(())
    }

    proof fn lemma_reads_back(value: Transform, dest: Transform, rest: Seq<u8>) {
        let after_rotation = Vector3::encoding(value.scale) + rest;
        let after_position = Quaternion::encoding(value.rotation) + after_rotation;
        Vector3::lemma_reads_back(value.position, dest.position, after_position);
        Quaternion::lemma_reads_back(value.rotation, dest.rotation, after_rotation);
        Vector3::lemma_reads_back(value.scale, dest.scale, rest);
        let input = Transform::encoding(value) + rest;
        assert(input =~= Vector3::encoding(value.position) + after_position);
        assert(input.skip(12).skip(16) =~= input.skip(28));
        assert(input.skip(28).skip(12) =~= input.skip(40));
    }
}

} // verus!
