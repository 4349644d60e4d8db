//! Geometry and colouring rules of twisty puzzles (a Rubik's cube of any
//! size, a mirror cube and a pyraminx), together with the input decisions
//! of the camera that looks at them.

pub mod texture;
pub mod rubiks;
pub mod box_mesh;
pub mod mirror;
pub mod pyraminx;
pub mod camera;
pub mod view;
