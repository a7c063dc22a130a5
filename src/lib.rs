//! Core of a small 2D game engine: integer geometry, axis-aligned colliders,
//! a collision world, and an entity/component runtime with deferred deletion.
#![allow(non_snake_case)]

pub mod geometry;
pub mod identity;
pub mod collider;
pub mod collision;
pub mod input;
pub mod frame;
pub mod game_api;
pub mod entity;
pub mod entities;
pub mod components;
pub mod shader;
pub mod engine;
