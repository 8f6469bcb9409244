//! Sprite sheets declared as data: their layout in exact pixel arithmetic, the
//! two-phase loading of sheet and sprite prefabs, and small helpers for sizing
//! and describing GPU buffers.

pub mod sprite;
pub mod util;
pub mod lookup;
pub mod prefab;
