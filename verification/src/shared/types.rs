//! Common value types shared between client and server.
//!
//! Floating-point components are carried as their IEEE-754 bit patterns
//! (`f32::to_bits`), so that the library can store, compare and move them
//! exactly; arithmetic on them happens at the edges of the system.
use vstd::prelude::*;

verus! {

/// Unique identifier for UObjects.
pub type ObjectId = u64;

/// Unique identifier for class definitions.
pub type ClassId = u32;

/// Result type with a string error message.
pub type StdbResult<T> = Result<T, String>;

/// Bit pattern of `0.0f32`.
pub const F32_ZERO_BITS: u32 = 0x0000_0000;

/// Bit pattern of `1.0f32`.
pub const F32_ONE_BITS: u32 = 0x3F80_0000;

/// Status code for operation results.
#[derive(Debug, Clone, Copy, PartialEq, Eq, Structural)]
pub enum StatusCode {
    Success,
    Failure,
    InvalidInput,
    NotAuthorized,
    NotFound,
    NetworkError,
    AlreadyExists,
    Timeout,
    ServerBusy,
}

/// Three-component vector (matches Unreal's FVector); components are `f32` bit patterns.
#[derive(Debug, Clone, Copy, PartialEq, Eq, Structural)]
pub struct Vector3 {
    pub x: u32,
    pub y: u32,
    pub z: u32,
}

impl Vector3 {
    pub fn new(x: u32, y: u32, z: u32) -> (v: Self)
        ensures
            v == (Vector3 { x, y, z }),
    {
        Vector3 { x, y, z }
    }

    pub fn zero() -> (v: Self)
        ensures
            v == (Vector3 { x: F32_ZERO_BITS, y: F32_ZERO_BITS, z: F32_ZERO_BITS }),
    {
        Vector3 { x: F32_ZERO_BITS, y: F32_ZERO_BITS, z: F32_ZERO_BITS }
    }

    pub fn one() -> (v: Self)
        ensures
            v == (Vector3 { x: F32_ONE_BITS, y: F32_ONE_BITS, z: F32_ONE_BITS }),
    {
        Vector3 { x: F32_ONE_BITS, y: F32_ONE_BITS, z: F32_ONE_BITS }
    }
}

/// Rotator (matches Unreal's FRotator); components are `f32` bit patterns.
#[derive(Debug, Clone, Copy, PartialEq, Eq, Structural)]
pub struct Rotator {
    pub pitch: u32,
    pub yaw: u32,
    pub roll: u32,
}

impl Rotator {
    pub fn new(pitch: u32, yaw: u32, roll: u32) -> (r: Self)
        ensures
            r == (Rotator { pitch, yaw, roll }),
    {
        Rotator { pitch, yaw, roll }
    }

    pub fn zero() -> (r: Self)
        ensures
            r == (Rotator { pitch: F32_ZERO_BITS, yaw: F32_ZERO_BITS, roll: F32_ZERO_BITS }),
    {
        Rotator { pitch: F32_ZERO_BITS, yaw: F32_ZERO_BITS, roll: F32_ZERO_BITS }
    }
}

/// Quaternion (matches Unreal's FQuat); components are `f32` bit patterns.
#[derive(Debug, Clone, Copy, PartialEq, Eq, Structural)]
pub struct Quat {
    pub x: u32,
    pub y: u32,
    pub z: u32,
    pub w: u32,
}

impl Quat {
    pub fn new(x: u32, y: u32, z: u32, w: u32) -> (q: Self)
        ensures
            q == (Quat { x, y, z, w }),
    {
        Quat { x, y, z, w }
    }

    pub open spec fn spec_identity() -> Quat {
        Quat { x: F32_ZERO_BITS, y: F32_ZERO_BITS, z: F32_ZERO_BITS, w: F32_ONE_BITS }
    }

    pub fn identity() -> (q: Self)
        ensures
            q == Quat::spec_identity(),
    {
        Quat { x: F32_ZERO_BITS, y: F32_ZERO_BITS, z: F32_ZERO_BITS, w: F32_ONE_BITS }
    }
}

/// Transform (matches Unreal's FTransform).
#[derive(Debug, Clone, Copy, PartialEq, Eq, Structural)]
pub struct Transform {
    pub location: Vector3,
    pub rotation: Quat,
    pub scale: Vector3,
}

impl Transform {
    pub fn new(location: Vector3, rotation: Quat, scale: Vector3) -> (t: Self)
        ensures
            t == (Transform { location, rotation, scale }),
    {
        Transform { location, rotation, scale }
    }

    pub open spec fn spec_identity() -> Transform {
        Transform {
            location: Vector3 { x: F32_ZERO_BITS, y: F32_ZERO_BITS, z: F32_ZERO_BITS },
            rotation: Quat::spec_identity(),
            scale: Vector3 { x: F32_ONE_BITS, y: F32_ONE_BITS, z: F32_ONE_BITS },
        }
    }

    pub fn identity() -> (t: Self)
        ensures
            t == Transform::spec_identity(),
    {
        Transform { location: Vector3::zero(), rotation: Quat::identity(), scale: Vector3::one() }
    }
}

/// Colour with 8-bit channels (matches Unreal's FColor).
#[derive(Debug, Clone, Copy, PartialEq, Eq, Structural)]
pub struct Color {
    pub r: u8,
    pub g: u8,
    pub b: u8,
    pub a: u8,
}

impl Color {
    pub fn new(r: u8, g: u8, b: u8, a: u8) -> (c: Self)
        ensures
            c == (Color { r, g, b, a }),
    {
        Color { r, g, b, a }
    }

    pub fn white() -> (c: Self)
        ensures
            c == (Color { r: 255, g: 255, b: 255, a: 255 }),
    {
        Color { r: 255, g: 255, b: 255, a: 255 }
    }

    pub fn black() -> (c: Self)
        ensures
            c == (Color { r: 0, g: 0, b: 0, a: 255 }),
    {
        Color { r: 0, g: 0, b: 0, a: 255 }
    }
}

} // verus!
