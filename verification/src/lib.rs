//! Runtime logic of a 2D tile-based platformer, verified with Verus.
//!
//! The crate covers the pieces of such a game that are pure logic: turning a
//! sparse grid of wall tiles into a small set of collision rectangles,
//! tracking which bodies currently overlap a sensor, deriving the player's
//! grounded/climbing state from those contacts and the input, fitting a
//! camera viewport inside the active level, and choosing an animation clip.
//! Everything that talks to an engine (rendering, asset loading, the physics
//! solver itself) stays outside; the library works on plain integers and the
//! caller converts at the edge.

pub mod animation;
pub mod camera;
pub mod compact;
pub mod contacts;
pub mod movement;
pub mod spawning;
pub mod tracker;
