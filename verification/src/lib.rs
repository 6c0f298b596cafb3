//! Core of an interactive ray tracer, host side.
//!
//! Two components carry the interesting logic and are verified here:
//!
//! * the bounding-volume-hierarchy builder ([`bvh`]): it takes a flat list of
//!   primitives with precomputed axis-aligned bounds and produces a linear,
//!   index-addressed binary tree ready for upload to a GPU traversal kernel;
//! * the progressive-sampling accumulation controller ([`render`]): a small
//!   state machine that decides, once per presented frame, whether the
//!   accumulated image is continued, cleared, or frozen.
//!
//! Geometry coordinates are plain integers. The presentation layer works in
//! floating point and maps each coordinate through an order-preserving
//! conversion before handing primitives to the builder; everything the builder
//! decides (unions, extents, splits) depends only on the order and equality of
//! coordinates, which that conversion keeps.

pub mod aabb;
pub mod bvh;
pub mod object;
pub mod render;
