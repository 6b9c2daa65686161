//! The decisions of a telekinesis tool for a shared three-dimensional scene:
//! pointing at a distant object, taking exclusive hold of it, keeping it at
//! arm's length, and handing the ring that steers all this from one hand or
//! controller to the next.
//!
//! The scene itself is somewhere else. What this crate is given are plain
//! values read from it, and what it hands back are plain values to act on:
//! which object to select, what to ask of the scene next, what to undo.
//!
//! All arithmetic is exact. A length is a whole number of micrometres
//! ([`fixed::UNIT`] to the metre), a position has three of them, each at most
//! [`fixed::COORD_LIMIT`] in magnitude, and a quotient is rounded toward zero
//! unless said otherwise.
//!
//! - [`pose`]: a steady pick point and the facing of a hand, from three of
//!   its landmarks.
//! - [`gesture`]: whether the hand or controller means to move an object.
//! - [`selection`]: the object that a ray points at.
//! - [`capture`]: the steps by which a selected object is taken hold of, and
//!   what each failure owes.
//! - [`mover`]: the distance at which a held object follows its anchor.
//! - [`ring`]: the handle that is attached to an input and follows it.
//! - [`vec3`], [`unit`], [`fixed`]: positions, directions and the scalars
//!   under them.

mod algebra;
pub mod capture;
pub mod fixed;
pub mod gesture;
pub mod mover;
pub mod pose;
pub mod ring;
pub mod selection;
pub mod unit;
pub mod vec3;
