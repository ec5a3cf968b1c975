//! The rules of a 2D platformer: which objects collide with which, the
//! registry of bounding boxes that the physics reads, the queues through which
//! objects talk to the game loop, the dialogue and camera queues, the
//! generator's layouts and the input state machines.
pub mod flags;
pub mod id_map;
pub mod collision;
pub mod world;
pub mod game;
pub mod dialogue;
pub mod overlay;
pub mod camera;
pub mod gen;
pub mod text;
pub mod descriptors;
pub mod weapons;
pub mod input;
pub mod entities;
pub mod tools;
pub mod dynamic;
pub mod bb;
pub mod names;
pub mod clipping;
