//! The core of a ray-traced scene viewer whose planes are portals.
//!
//! A scene is an ordered list of rectangular planes. Each side of a plane may
//! be linked to another plane of the list, so that a ray or a moving camera
//! that crosses the side continues from the linked plane. This crate holds
//! what makes such a scene coherent on the host: the algebra of rotors and
//! rigid motions, the meeting of a ray with a plane, the first-person
//! controls, the hop of the camera through a portal, the links and their
//! upkeep when planes are removed, the records that the device reads, and
//! the frame counter of the progressive renderer.
//!
//! Numbers are single-precision and are held by their bit patterns. Sums,
//! products, quotients and roots are formed on the patterns and rounded as
//! the format asks, so that every result is the one the device would get.
//! Sines and cosines are not formed here: a function that needs them takes
//! them from its caller.

pub mod single;
pub mod rounding;
pub mod arithmetic;
pub mod exact;
pub mod limits;
pub mod vector3;
pub mod color;
pub mod ray;
pub mod rotor;
pub mod transform;
pub mod laws;
pub mod portal;
pub mod plane;
pub mod scene;
pub mod traversal;
pub mod camera;
pub mod accumulation;
pub mod settings;
pub mod device;
