//! Sizes and positions, in whole pixels.
use vstd::prelude::*;

verus! {

/// A size in logical pixels.
#[derive(Debug, Copy, Clone, PartialEq, Eq)]
pub struct LogicalSize {
    pub width: u32,
    pub height: u32,
}

/// A position in logical pixels.
#[derive(Debug, Copy, Clone, PartialEq, Eq)]
pub struct LogicalPosition {
    pub x: i32,
    pub y: i32,
}

/// A size in physical pixels.
#[derive(Debug, Copy, Clone, PartialEq, Eq)]
pub struct PhysicalSize {
    pub width: u32,
    pub height: u32,
}

/// A position in physical pixels.
#[derive(Debug, Copy, Clone, PartialEq, Eq)]
pub struct PhysicalPosition {
    pub x: i32,
    pub y: i32,
}

} // verus!
