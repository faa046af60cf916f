//! A basket-and-falling-items arcade game.
//!
//! The [`Game`] owns the basket, the falling items and the score. One call of
//! [`Game::update`] plays one frame and hands back what is then to be painted;
//! [`Game::move_basket`] nudges the basket. Nothing here draws: the `scene`
//! module lists a frame's shapes in painting order, and the caller paints
//! them.
//!
//! Items stand on whole surface units. The basket is centred exactly, so on a
//! surface of odd width its edges lie on half units; its position is held in
//! half units and no fraction is lost.

mod chance;
pub mod game;
pub mod laws;
pub mod model;
pub mod scene;
pub mod text;

pub use game::{roll_spawns, Game};
pub use model::{Event, Fate, GameView, Item, Point};
pub use model::{BASKET_HEIGHT, BASKET_STEP, BASKET_WIDTH, FALL_SPEED, SPAWN_ODDS};
