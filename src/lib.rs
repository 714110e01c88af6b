//! A falling-sand grid simulation: a dense cell grid, a deferred action
//! buffer, anchorable neighbourhood masks, a randomized update scheduler and
//! the grid-side decisions of point and rectangle collision.

pub mod cell;
pub mod game;
pub mod frame;
pub mod mask;
pub mod rules;
pub mod hitbox;
