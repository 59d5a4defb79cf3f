//! The simulation core of a small arcade shooter: a ship dodges and shoots
//! enemies that fall down the screen.
//!
//! The core works on whole numbers: lengths in units of a hundredth of a
//! pixel, times in milliseconds, speeds in units per second. The host
//! program polls the keys, draws, plays sounds and keeps the record on
//! disk; once a frame it hands the core what it polled and does what the
//! core asks for in return.
//!
//! * [`geometry`]: shapes, bounding boxes and the overlap test;
//! * [`motion`]: steering the ship, firing, moving enemies and bullets;
//! * [`combat`]: bullets against enemies, explosions and points;
//! * [`score`]: points and the running score;
//! * [`random`]: the random draws and the enemy spawned from them;
//! * [`world`]: the whole game and its frame by frame update;
//! * [`sprites`]: which picture a shape is drawn with;
//! * [`store`]: the record as text.

pub mod combat;
pub mod geometry;
pub mod motion;
pub mod random;
pub mod score;
pub mod sprites;
pub mod store;
pub mod world;
