//! A thin game-engine core: mesh, shader and texture resource descriptions
//! with builder-style construction, and a minimal entity-component system
//! with per-kind update dispatch.
//!
//! Scalar quantities that the graphics layer consumes as single-precision
//! floats (translations, rotations, scales, texture coordinates) are carried
//! here as their IEEE-754 bit patterns (`u32` words): this crate never
//! computes with them, it only stores, copies and hands them on.

use vstd::prelude::*;

pub mod assets;
pub mod component;
pub mod ecs;
pub mod mesh;
pub mod model;
pub mod scriptable;
pub mod shader;
pub mod texture;

verus! {

/// Bit pattern of single-precision `1.0`.
pub const ONE_BITS: u32 = 0x3F80_0000;

/// Bit pattern of single-precision `0.0`.
pub const ZERO_BITS: u32 = 0;

/// A three-component vector, each component an IEEE-754 single-precision
/// bit pattern.
#[derive(Clone, Copy, PartialEq, Eq, Structural, Debug)]
pub struct Vec3Bits {
    pub x: u32,
    pub y: u32,
    pub z: u32,
}

/// A quaternion, each component an IEEE-754 single-precision bit pattern.
#[derive(Clone, Copy, PartialEq, Eq, Structural, Debug)]
pub struct QuatBits {
    pub x: u32,
    pub y: u32,
    pub z: u32,
    pub w: u32,
}

/// The zero vector.
pub open spec fn vec3_zero() -> Vec3Bits {
    Vec3Bits { x: ZERO_BITS, y: ZERO_BITS, z: ZERO_BITS }
}

/// The all-ones vector.
pub open spec fn vec3_one() -> Vec3Bits {
    Vec3Bits { x: ONE_BITS, y: ONE_BITS, z: ONE_BITS }
}

/// The identity rotation.
pub open spec fn quat_identity() -> QuatBits {
    QuatBits { x: ZERO_BITS, y: ZERO_BITS, z: ZERO_BITS, w: ONE_BITS }
}

/// Position, orientation and size of one drawn mesh.
#[derive(Clone, Copy, PartialEq, Eq, Structural, Debug)]
pub struct Transform {
    pub translation: Vec3Bits,
    pub rotation: QuatBits,
    pub scale: Vec3Bits,
}

impl Transform {
    /// The identity transform: no translation, no rotation, unit scale.
    pub fn new() -> (t: Transform)
        ensures
            t.translation == vec3_zero(),
            t.rotation == quat_identity(),
            t.scale == vec3_one(),
    {
        Transform {
            translation: Vec3Bits { x: ZERO_BITS, y: ZERO_BITS, z: ZERO_BITS },
            rotation: QuatBits { x: ZERO_BITS, y: ZERO_BITS, z: ZERO_BITS, w: ONE_BITS },
            scale: Vec3Bits { x: ONE_BITS, y: ONE_BITS, z: ONE_BITS },
        }
    }
}

} // verus!
