//! Interiors in the DIF format, version 44: the records and their wire
//! form, read and written byte by byte, and the tables of an interior as
//! they are built from textured triangles: hulls with their emit strings
//! and poly lists, the BSP tree, and the grid of coordinate bins.
//!
//! Numbers with a fraction are kept as their 32 bits. The library
//! compares them and carries them; it does not calculate with them.

pub mod ai_special_node;
pub mod api;
pub mod bsp;
pub mod builder;
pub mod dif;
pub mod errors;
pub mod float;
pub mod force_field;
pub mod game_entity;
pub mod interior;
pub mod interior_path_follower;
pub mod io;
pub mod roundtrip;
pub mod static_mesh;
pub mod sub_object;
pub mod trigger;
pub mod typed_ints;
pub mod types;
pub mod vehicle_collision;
